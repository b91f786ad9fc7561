//! Value conversions: a raw text token to a typed scalar or small collection.
//!
//! Numbers are decimal; a fractional value is kept exactly as a [`Decimal`]
//! (sign, mantissa digits, and the count of digits after the point), so the
//! document carries the literal content of the token.

use vstd::prelude::*;

use crate::scan::find_char;
use crate::scan::spec_fields;
use crate::scan::spec_find_char;
use crate::scan::split_fields;

verus! {

/// The game mode carried by the General section.  `Wrong` stands for every
/// unrecognized or unparseable mode token and is the type's default.
#[derive(Clone, Copy, Debug, PartialEq, Eq)]
pub enum Mode {
    Wrong,
    Osu,
    Taiko,
    CatchTheBeat,
    OsuMania,
}

/// A decimal number kept exactly as written: `(-1)^neg * mantissa / 10^scale`.
/// The token's digits become the mantissa; `scale` counts the digits after
/// the decimal point.
#[derive(Clone, Copy, Debug, PartialEq, Eq)]
pub struct Decimal {
    pub neg: bool,
    pub mantissa: u64,
    pub scale: u64,
}

impl Default for Mode {
    /// The default mode is the sentinel `Wrong`.
    fn default() -> (r: Mode)
        ensures
            r == Mode::Wrong,
    {
        Mode::Wrong
    }
}

impl Default for Decimal {
    /// The default decimal is zero.
    fn default() -> (r: Decimal)
        ensures
            r == spec_decimal_zero(),
    {
        Decimal { neg: false, mantissa: 0, scale: 0 }
    }
}

/// The zero decimal, every decimal field's default.
pub open spec fn spec_decimal_zero() -> Decimal {
    Decimal { neg: false, mantissa: 0, scale: 0 }
}

/// Exec constructor for the zero decimal.
pub fn decimal_zero() -> (r: Decimal)
    ensures
        r == spec_decimal_zero(),
{
    Decimal { neg: false, mantissa: 0, scale: 0 }
}

/// `c` is an ASCII decimal digit.
pub open spec fn is_digit(c: char) -> bool {
    48 <= c as u32 && c as u32 <= 57
}

/// Numeric value of a digit character.
pub open spec fn digit_val(c: char) -> int {
    c as u32 - 48
}

/// Every character of `d` is a decimal digit.
pub open spec fn all_digits(d: Seq<char>) -> bool {
    forall|i: int| 0 <= i < d.len() ==> is_digit(#[trigger] d[i])
}

/// Left fold of the digits of `d` onto the accumulator `a` in base ten.
pub open spec fn seq_digits_val_from(a: int, d: Seq<char>) -> int
    decreases d.len(),
{
    if d.len() == 0 {
        a
    } else {
        seq_digits_val_from(a, d.drop_last()) * 10 + digit_val(d.last())
    }
}

/// Numeric value of a digit string.
pub open spec fn seq_digits_val(d: Seq<char>) -> int {
    seq_digits_val_from(0, d)
}

pub proof fn lemma_fold_lower_bound(a: int, d: Seq<char>)
    requires
        0 <= a,
        all_digits(d),
    ensures
        seq_digits_val_from(a, d) >= a,
    decreases d.len(),
{
    if d.len() == 0 {
    } else {
        let dl = d.drop_last();
        assert(all_digits(dl)) by {
            assert(forall|i: int| 0 <= i < dl.len() ==> dl[i] == d[i] && is_digit(#[trigger] d[i]));
        }
        lemma_fold_lower_bound(a, dl);
        assert(is_digit(d.last()));
    }
}

/// The fold over a prefix never exceeds the fold over the whole digit string.
pub proof fn lemma_fold_mono(a: int, d: Seq<char>, i: int)
    requires
        0 <= a,
        all_digits(d),
        0 <= i <= d.len(),
    ensures
        seq_digits_val_from(a, d.subrange(0, i)) <= seq_digits_val_from(a, d),
    decreases d.len(),
{
    if i == d.len() {
        assert(d.subrange(0, i) =~= d);
    } else {
        let dl = d.drop_last();
        assert(all_digits(dl)) by {
            assert(forall|j: int| 0 <= j < dl.len() ==> dl[j] == d[j] && is_digit(#[trigger] d[j]));
        }
        assert(d.subrange(0, i) =~= dl.subrange(0, i));
        lemma_fold_mono(a, dl, i);
        lemma_fold_lower_bound(a, dl);
        assert(is_digit(d.last()));
        assert(seq_digits_val_from(a, dl) * 10 >= seq_digits_val_from(a, dl)) by {
            lemma_fold_lower_bound(a, dl);
        }
    }
}

/// Folding one string and then another equals folding their concatenation.
pub proof fn lemma_fold_concat(a: int, x: Seq<char>, y: Seq<char>)
    ensures
        seq_digits_val_from(a, x + y) == seq_digits_val_from(seq_digits_val_from(a, x), y),
    decreases y.len(),
{
    if y.len() == 0 {
        assert(x + y =~= x);
    } else {
        let yl = y.drop_last();
        lemma_fold_concat(a, x, yl);
        assert((x + y).drop_last() =~= x + yl);
        assert((x + y).last() == y.last());
    }
}

/// Folds the digits of `t[from..to)` onto `acc0`.  `Some` exactly when every
/// character there is a digit and the folded value fits in a `u64`.
pub fn fold_digits(t: &str, n: usize, from: usize, to: usize, acc0: u64) -> (r: Option<u64>)
    requires
        n == t@.len(),
        from <= to <= n,
    ensures
        match r {
            Some(v) => all_digits(t@.subrange(from as int, to as int)) && v
                == seq_digits_val_from(acc0 as int, t@.subrange(from as int, to as int)),
            None => !(all_digits(t@.subrange(from as int, to as int)) && seq_digits_val_from(
                acc0 as int,
                t@.subrange(from as int, to as int),
            ) <= u64::MAX),
        },
{
    let ghost full = t@.subrange(from as int, to as int);
    let mut i: usize = from;
    let mut acc: u64 = acc0;
    while i < to
        invariant
            n == t@.len(),
            from <= i <= to <= n,
            all_digits(t@.subrange(from as int, i as int)),
            acc == seq_digits_val_from(acc0 as int, t@.subrange(from as int, i as int)),
            full == t@.subrange(from as int, to as int),
        decreases to - i,
    {
        let c = t.get_char(i);
        let cv = c as u32;
        let ghost prev = t@.subrange(from as int, i as int);
        let ghost cur = t@.subrange(from as int, i as int + 1);
        proof {
            assert(cur.drop_last() =~= prev);
            assert(cur.last() == t@[i as int]);
        }
        if cv < 48 || cv > 57 {
            proof {
                assert(!is_digit(full[i - from]));
            }
            return None;
        }
        let d = (cv - 48) as u64;
        if acc > u64::MAX / 10 {
            proof {
                assert((acc as int) * 10 + d >= (acc as int) * 10);
                assert((acc as int) * 10 > u64::MAX as int) by (nonlinear_arith)
                    requires
                        acc as int > u64::MAX as int / 10,
                ;
                if all_digits(full) {
                    lemma_fold_mono(acc0 as int, full, i as int + 1 - from);
                    assert(full.subrange(0, i as int + 1 - from) =~= cur);
                }
            }
            return None;
        }
        proof {
            assert((acc as int) * 10 <= (u64::MAX as int / 10) * 10) by (nonlinear_arith)
                requires
                    acc as int <= u64::MAX as int / 10,
            ;
        }
        let shifted = acc * 10;
        if d > u64::MAX - shifted {
            proof {
                if all_digits(full) {
                    lemma_fold_mono(acc0 as int, full, i as int + 1 - from);
                    assert(full.subrange(0, i as int + 1 - from) =~= cur);
                }
            }
            return None;
        }
        acc = shifted + d;
        i += 1;
    }
    proof {
        assert(t@.subrange(from as int, i as int) =~= full);
    }
    Some(acc)
}

/// The unsigned-integer reading of a token: an optional `+`, then one or more
/// digits, with a value that fits in a `u32`.
pub open spec fn spec_parse_u32(t: Seq<char>) -> Option<u32> {
    let start: int = if t.len() >= 1 && t[0] == '+' {
        1
    } else {
        0
    };
    let d = t.subrange(start, t.len() as int);
    if d.len() > 0 && all_digits(d) && seq_digits_val(d) <= u32::MAX {
        Some(seq_digits_val(d) as u32)
    } else {
        None
    }
}

/// Exec unsigned-integer conversion.
pub fn parse_u32(t: &str) -> (r: Option<u32>)
    ensures
        r == spec_parse_u32(t@),
{
    let n = t.unicode_len();
    let start: usize = if n > 0 && t.get_char(0) == '+' {
        1
    } else {
        0
    };
    if start >= n {
        return None;
    }
    match fold_digits(t, n, start, n, 0) {
        None => None,
        Some(v) => {
            if v <= 0xffff_ffff {
                Some(v as u32)
            } else {
                None
            }
        },
    }
}

/// The boolean reading of a token: `1` is true, `0` is false, anything else
/// fails.
pub open spec fn spec_parse_bool(t: Seq<char>) -> Option<bool> {
    if t.len() == 1 && t[0] == '1' {
        Some(true)
    } else if t.len() == 1 && t[0] == '0' {
        Some(false)
    } else {
        None
    }
}

/// Exec boolean conversion.
pub fn parse_bool(t: &str) -> (r: Option<bool>)
    ensures
        r == spec_parse_bool(t@),
{
    let n = t.unicode_len();
    if n == 1 {
        let c = t.get_char(0);
        if c == '1' {
            return Some(true);
        }
        if c == '0' {
            return Some(false);
        }
    }
    None
}

/// The variant denoted by an integer: `0..=3` name the four game modes,
/// every other integer denotes `Wrong`.
pub open spec fn spec_mode_from_index(i: int) -> Mode {
    if i == 0 {
        Mode::Osu
    } else if i == 1 {
        Mode::Taiko
    } else if i == 2 {
        Mode::CatchTheBeat
    } else if i == 3 {
        Mode::OsuMania
    } else {
        Mode::Wrong
    }
}

/// The index a named variant stands for; `Wrong` carries the sentinel
/// index minus one.
pub open spec fn spec_mode_index(m: Mode) -> int {
    match m {
        Mode::Wrong => -1,
        Mode::Osu => 0,
        Mode::Taiko => 1,
        Mode::CatchTheBeat => 2,
        Mode::OsuMania => 3,
    }
}

/// The mode reading of a token: the token as a signed integer, with `0..=3`
/// mapped to the named variants; every other integer, and every token that is
/// not an integer, reads as `Wrong`.  Mode conversion never fails.
pub open spec fn spec_mode_of(t: Seq<char>) -> Mode {
    let start: int = if t.len() >= 1 && (t[0] == '+' || t[0] == '-') {
        1
    } else {
        0
    };
    let neg = t.len() >= 1 && t[0] == '-';
    let d = t.subrange(start, t.len() as int);
    if d.len() == 0 || !all_digits(d) {
        Mode::Wrong
    } else if neg {
        spec_mode_from_index(-seq_digits_val(d))
    } else {
        spec_mode_from_index(seq_digits_val(d))
    }
}

/// Exec mode conversion.
pub fn mode_of(t: &str) -> (r: Mode)
    ensures
        r == spec_mode_of(t@),
{
    let n = t.unicode_len();
    let mut neg = false;
    let mut start: usize = 0;
    if n > 0 {
        let c0 = t.get_char(0);
        if c0 == '+' {
            start = 1;
        } else if c0 == '-' {
            start = 1;
            neg = true;
        }
    }
    if start >= n {
        return Mode::Wrong;
    }
    let ghost body = t@.subrange(start as int, n as int);
    let mut i: usize = start;
    // `acc` is the digit value capped at four: four stands for "above three".
    let mut acc: u8 = 0;
    while i < n
        invariant
            n == t@.len(),
            start <= i <= n,
            start as int == (if t@.len() >= 1 && (t@[0] == '+' || t@[0] == '-') {
                1int
            } else {
                0int
            }),
            neg == (t@.len() >= 1 && t@[0] == '-'),
            body == t@.subrange(start as int, n as int),
            all_digits(t@.subrange(start as int, i as int)),
            seq_digits_val(t@.subrange(start as int, i as int)) >= 0,
            acc as int == if seq_digits_val(t@.subrange(start as int, i as int)) > 3 {
                4int
            } else {
                seq_digits_val(t@.subrange(start as int, i as int))
            },
        decreases n - i,
    {
        let c = t.get_char(i);
        let cv = c as u32;
        let ghost prev = t@.subrange(start as int, i as int);
        let ghost cur = t@.subrange(start as int, i as int + 1);
        proof {
            assert(cur.drop_last() =~= prev);
            assert(cur.last() == t@[i as int]);
        }
        if cv < 48 || cv > 57 {
            proof {
                assert(body[i - start] == t@[i as int]);
                assert(!is_digit(body[i - start]));
                assert(!all_digits(body));
            }
            return Mode::Wrong;
        }
        let d = (cv - 48) as u8;
        acc = if acc >= 1 || d > 3 {
            4
        } else {
            d
        };
        i += 1;
    }
    proof {
        assert(t@.subrange(start as int, i as int) =~= body);
    }
    if neg && acc != 0 {
        Mode::Wrong
    } else if acc == 0 {
        Mode::Osu
    } else if acc == 1 {
        Mode::Taiko
    } else if acc == 2 {
        Mode::CatchTheBeat
    } else if acc == 3 {
        Mode::OsuMania
    } else {
        Mode::Wrong
    }
}

/// The decimal reading of a token: an optional sign, then digits with at most
/// one point and at least one digit or a bare integer part; the mantissa must
/// fit in a `u64`.
pub open spec fn spec_parse_decimal(t: Seq<char>) -> Option<Decimal> {
    let start: int = if t.len() >= 1 && (t[0] == '+' || t[0] == '-') {
        1
    } else {
        0
    };
    let neg = t.len() >= 1 && t[0] == '-';
    match spec_find_char(t, start, '.') {
        None => {
            let d = t.subrange(start, t.len() as int);
            if d.len() > 0 && all_digits(d) && seq_digits_val(d) <= u64::MAX {
                Some(Decimal { neg, mantissa: seq_digits_val(d) as u64, scale: 0 })
            } else {
                None
            }
        },
        Some(dot) => {
            if start <= dot && dot < t.len() {
                let ip = t.subrange(start, dot);
                let fp = t.subrange(dot + 1, t.len() as int);
                if ip.len() + fp.len() > 0 && all_digits(ip) && all_digits(fp)
                    && seq_digits_val_from(seq_digits_val(ip), fp) <= u64::MAX && fp.len()
                    <= u64::MAX {
                    Some(
                        Decimal {
                            neg,
                            mantissa: seq_digits_val_from(seq_digits_val(ip), fp) as u64,
                            scale: fp.len() as u64,
                        },
                    )
                } else {
                    None
                }
            } else {
                None
            }
        },
    }
}

/// Exec decimal conversion.
pub fn parse_decimal(t: &str) -> (r: Option<Decimal>)
    ensures
        r == spec_parse_decimal(t@),
{
    let n = t.unicode_len();
    let mut neg = false;
    let mut start: usize = 0;
    if n > 0 {
        let c0 = t.get_char(0);
        if c0 == '+' {
            start = 1;
        } else if c0 == '-' {
            start = 1;
            neg = true;
        }
    }
    match find_char(t, n, start, '.') {
        None => {
            if start >= n {
                proof {
                    assert(t@.subrange(start as int, n as int).len() == 0);
                }
                return None;
            }
            match fold_digits(t, n, start, n, 0) {
                None => None,
                Some(m) => Some(Decimal { neg, mantissa: m, scale: 0 }),
            }
        },
        Some(dot) => {
            if dot == start && dot + 1 == n {
                proof {
                    assert(t@.subrange(start as int, dot as int).len() == 0);
                    assert(t@.subrange(dot as int + 1, n as int).len() == 0);
                }
                return None;
            }
            let ghost ip = t@.subrange(start as int, dot as int);
            let ghost fp = t@.subrange(dot as int + 1, n as int);
            match fold_digits(t, n, start, dot, 0) {
                None => {
                    proof {
                        if all_digits(ip) && all_digits(fp) {
                            lemma_fold_lower_bound(seq_digits_val(ip), fp);
                        }
                    }
                    None
                },
                Some(m1) => {
                    match fold_digits(t, n, dot + 1, n, m1) {
                        None => None,
                        Some(m) => Some(
                            Decimal { neg, mantissa: m, scale: ((n - dot) - 1) as u64 },
                        ),
                    }
                },
            }
        },
    }
}

/// The list-of-integers reading of a token: the comma-separated fields that
/// read as unsigned integers, in order; unparseable fields are dropped.
pub open spec fn spec_u32s_of(fs: Seq<Seq<char>>) -> Seq<u32>
    decreases fs.len(),
{
    if fs.len() == 0 {
        seq![]
    } else {
        spec_u32s_of(fs.drop_last()) + match spec_parse_u32(fs.last()) {
            Some(v) => seq![v],
            None => seq![],
        }
    }
}

/// The list-of-integers reading of a whole token.
pub open spec fn spec_u32_list(t: Seq<char>) -> Seq<u32> {
    spec_u32s_of(spec_fields(t))
}

/// Exec list-of-integers conversion.
pub fn parse_u32_list(t: &str) -> (r: Vec<u32>)
    ensures
        r@ == spec_u32_list(t@),
{
    let fs = split_fields(t);
    let mut out: Vec<u32> = Vec::new();
    let mut i: usize = 0;
    while i < fs.len()
        invariant
            i <= fs.len(),
            fs.deep_view() == spec_fields(t@),
            out@ == spec_u32s_of(fs.deep_view().subrange(0, i as int)),
        decreases fs.len() - i,
    {
        let ghost prev = fs.deep_view().subrange(0, i as int);
        let ghost cur = fs.deep_view().subrange(0, i as int + 1);
        proof {
            assert(cur.drop_last() =~= prev);
            assert(cur.last() == fs.deep_view()[i as int]);
            assert(fs.deep_view()[i as int] == fs@[i as int]@);
        }
        match parse_u32(fs[i].as_str()) {
            Some(v) => {
                out.push(v);
            },
            None => {},
        }
        i += 1;
    }
    proof {
        assert(fs.deep_view().subrange(0, i as int) =~= fs.deep_view());
    }
    out
}

/// `c` separates whitespace-split tokens: a space or a tab.
pub open spec fn is_ws(c: char) -> bool {
    c == ' ' || c == '\t'
}

/// Position of the first whitespace character at or after `from`, if any.
pub open spec fn spec_find_ws(t: Seq<char>, from: int) -> Option<int>
    decreases t.len() - from,
{
    if from < 0 || from >= t.len() {
        None
    } else if is_ws(t[from]) {
        Some(from)
    } else {
        spec_find_ws(t, from + 1)
    }
}

pub proof fn lemma_find_ws(t: Seq<char>, from: int)
    ensures
        match spec_find_ws(t, from) {
            Some(i) => from <= i && i < t.len() && is_ws(t[i]),
            None => true,
        },
    decreases t.len() - from,
{
    if from < 0 || from >= t.len() {
    } else if is_ws(t[from]) {
    } else {
        lemma_find_ws(t, from + 1);
    }
}

fn find_ws(t: &str, n: usize, from: usize) -> (r: Option<usize>)
    requires
        n == t@.len(),
    ensures
        match r {
            Some(i) => spec_find_ws(t@, from as int) == Some(i as int) && from <= i && i < n
                && is_ws(t@[i as int]),
            None => spec_find_ws(t@, from as int) is None,
        },
    decreases n - from,
{
    if from >= n {
        None
    } else {
        let c = t.get_char(from);
        if c == ' ' || c == '\t' {
            Some(from)
        } else {
            find_ws(t, n, from + 1)
        }
    }
}

/// The list-of-texts reading of a token: the whitespace-separated words, each
/// kept verbatim; separators are spaces and tabs.
pub open spec fn spec_ws_tokens(t: Seq<char>) -> Seq<Seq<char>>
    decreases t.len(),
{
    if t.len() == 0 {
        seq![]
    } else if is_ws(t[0]) {
        spec_ws_tokens(t.subrange(1, t.len() as int))
    } else {
        match spec_find_ws(t, 0) {
            None => seq![t],
            Some(i) => if 0 < i && i < t.len() {
                seq![t.subrange(0, i)] + spec_ws_tokens(t.subrange(i, t.len() as int))
            } else {
                seq![t]
            },
        }
    }
}

/// Exec whitespace splitter.
pub fn parse_ws_tokens(t: &str) -> (r: Vec<String>)
    ensures
        r.deep_view() == spec_ws_tokens(t@),
    decreases t@.len(),
{
    let n = t.unicode_len();
    if n == 0 {
        let v: Vec<String> = Vec::new();
        proof {
            assert(v.deep_view() =~= spec_ws_tokens(t@));
        }
        return v;
    }
    let c0 = t.get_char(0);
    if c0 == ' ' || c0 == '\t' {
        return parse_ws_tokens(t.substring_char(1, n));
    }
    match find_ws(t, n, 0) {
        None => {
            let mut v: Vec<String> = Vec::new();
            v.push(t.to_owned());
            proof {
                assert(v.deep_view() =~= spec_ws_tokens(t@));
            }
            v
        },
        Some(i) => {
            let head = t.substring_char(0, i).to_owned();
            let mut rest = parse_ws_tokens(t.substring_char(i, n));
            let mut v: Vec<String> = Vec::new();
            v.push(head);
            v.append(&mut rest);
            proof {
                assert(v.deep_view() =~= spec_ws_tokens(t@));
            }
            v
        },
    }
}

} // verus!
