//! Low-level text scanning: CRLF line terminators, single-character search,
//! bracket tags, key/value records and comma-separated records.
//!
//! Every exec function returns exactly what its spec-level counterpart
//! describes, so the higher layers can reason purely over the spec grammar.

use vstd::prelude::*;

verus! {

/// A CRLF line terminator stands at position `i` of `s`.
pub open spec fn crlf_at(s: Seq<char>, i: int) -> bool {
    0 <= i && i + 2 <= s.len() && s[i] == '\r' && s[i + 1] == '\n'
}

/// Position of the first CRLF terminator at or after `from`, if any.
pub open spec fn spec_find_crlf(s: Seq<char>, from: int) -> Option<int>
    decreases s.len() - from,
{
    if from < 0 || from + 2 > s.len() {
        None
    } else if s[from] == '\r' && s[from + 1] == '\n' {
        Some(from)
    } else {
        spec_find_crlf(s, from + 1)
    }
}

pub proof fn lemma_find_crlf(s: Seq<char>, from: int)
    ensures
        match spec_find_crlf(s, from) {
            Some(i) => from <= i && crlf_at(s, i),
            None => true,
        },
    decreases s.len() - from,
{
    if from < 0 || from + 2 > s.len() {
    } else if s[from] == '\r' && s[from + 1] == '\n' {
    } else {
        lemma_find_crlf(s, from + 1);
    }
}

/// Exec search for the first CRLF terminator at or after `from`.
pub fn find_crlf(s: &str, n: usize, from: usize) -> (r: Option<usize>)
    requires
        n == s@.len(),
    ensures
        match r {
            Some(i) => spec_find_crlf(s@, from as int) == Some(i as int) && from <= i && i + 2
                <= n,
            None => spec_find_crlf(s@, from as int) is None,
        },
    decreases n - from,
{
    if from >= n || from + 1 >= n {
        None
    } else if s.get_char(from) == '\r' && s.get_char(from + 1) == '\n' {
        Some(from)
    } else {
        find_crlf(s, n, from + 1)
    }
}

/// Exec test for a CRLF terminator at position `i`.
pub fn is_crlf_at(s: &str, n: usize, i: usize) -> (b: bool)
    requires
        n == s@.len(),
    ensures
        b == crlf_at(s@, i as int),
{
    i < n && i + 1 < n && s.get_char(i) == '\r' && s.get_char(i + 1) == '\n'
}

/// Position of the first occurrence of `c` at or after `from`, if any.
pub open spec fn spec_find_char(s: Seq<char>, from: int, c: char) -> Option<int>
    decreases s.len() - from,
{
    if from < 0 || from >= s.len() {
        None
    } else if s[from] == c {
        Some(from)
    } else {
        spec_find_char(s, from + 1, c)
    }
}

pub proof fn lemma_find_char(s: Seq<char>, from: int, c: char)
    ensures
        match spec_find_char(s, from, c) {
            Some(i) => from <= i && i < s.len() && s[i] == c,
            None => true,
        },
    decreases s.len() - from,
{
    if from < 0 || from >= s.len() {
    } else if s[from] == c {
    } else {
        lemma_find_char(s, from + 1, c);
    }
}

/// Exec search for the first occurrence of `c` at or after `from`.
pub fn find_char(s: &str, n: usize, from: usize, c: char) -> (r: Option<usize>)
    requires
        n == s@.len(),
    ensures
        match r {
            Some(i) => spec_find_char(s@, from as int, c) == Some(i as int) && from <= i && i < n,
            None => spec_find_char(s@, from as int, c) is None,
        },
    decreases n - from,
{
    if from >= n {
        None
    } else if s.get_char(from) == c {
        Some(from)
    } else {
        find_char(s, n, from + 1, c)
    }
}

/// Position right after the run of spaces and tabs that starts at `from` and
/// stays below `end`.
pub open spec fn spec_skip_ws(s: Seq<char>, from: int, end: int) -> int
    decreases end - from,
{
    if 0 <= from && from < end && from < s.len() && (s[from] == ' ' || s[from] == '\t') {
        spec_skip_ws(s, from + 1, end)
    } else {
        from
    }
}

pub proof fn lemma_skip_ws(s: Seq<char>, from: int, end: int)
    ensures
        from <= spec_skip_ws(s, from, end),
        from <= end ==> spec_skip_ws(s, from, end) <= end,
    decreases end - from,
{
    if 0 <= from && from < end && from < s.len() && (s[from] == ' ' || s[from] == '\t') {
        lemma_skip_ws(s, from + 1, end);
    }
}

/// Exec skip over spaces and tabs, staying below `end`.
pub fn skip_ws(s: &str, n: usize, from: usize, end: usize) -> (r: usize)
    requires
        n == s@.len(),
        end <= n,
    ensures
        r == spec_skip_ws(s@, from as int, end as int),
        from <= r,
        from <= end ==> r <= end,
    decreases end - from,
{
    if from < end && (s.get_char(from) == ' ' || s.get_char(from) == '\t') {
        skip_ws(s, n, from + 1, end)
    } else {
        from
    }
}

/// A whitespace character in the sense of the version-line skipper: space,
/// tab, or a line-terminator character.
pub open spec fn is_multispace(c: char) -> bool {
    c == ' ' || c == '\t' || c == '\r' || c == '\n'
}

/// Position right after the run of whitespace (spaces, tabs, CR, LF) that
/// starts at `from`.
pub open spec fn spec_skip_multispace(s: Seq<char>, from: int) -> int
    decreases s.len() - from,
{
    if 0 <= from && from < s.len() && is_multispace(s[from]) {
        spec_skip_multispace(s, from + 1)
    } else {
        from
    }
}

pub proof fn lemma_skip_multispace(s: Seq<char>, from: int)
    ensures
        from <= spec_skip_multispace(s, from),
        from <= s.len() ==> spec_skip_multispace(s, from) <= s.len(),
    decreases s.len() - from,
{
    if 0 <= from && from < s.len() && is_multispace(s[from]) {
        lemma_skip_multispace(s, from + 1);
    }
}

/// Exec skip over whitespace (spaces, tabs, CR, LF).
pub fn skip_multispace(s: &str, n: usize, from: usize) -> (r: usize)
    requires
        n == s@.len(),
    ensures
        r == spec_skip_multispace(s@, from as int),
        from <= r,
        from <= n ==> r <= n,
    decreases n - from,
{
    if from < n {
        let c = s.get_char(from);
        if c == ' ' || c == '\t' || c == '\r' || c == '\n' {
            return skip_multispace(s, n, from + 1);
        }
    }
    from
}

/// Exec character-wise string equality.
pub fn str_eq(a: &str, b: &str) -> (r: bool)
    ensures
        r == (a@ == b@),
{
    let na = a.unicode_len();
    let nb = b.unicode_len();
    if na != nb {
        proof {
            assert(a@ != b@) by {
                assert(a@.len() != b@.len());
            }
        }
        return false;
    }
    let mut i: usize = 0;
    while i < na
        invariant
            na == a@.len(),
            na == b@.len(),
            i <= na,
            forall|j: int| 0 <= j < i ==> a@[j] == b@[j],
        decreases na - i,
    {
        if a.get_char(i) != b.get_char(i) {
            return false;
        }
        i += 1;
    }
    proof {
        assert(a@ =~= b@);
    }
    true
}

/// The literal `tag` stands at position `pos` of `s`.
pub open spec fn spec_has_tag(s: Seq<char>, pos: int, tag: Seq<char>) -> bool {
    &&& 0 <= pos
    &&& pos + tag.len() <= s.len()
    &&& s.subrange(pos, pos + tag.len() as int) == tag
}

/// Exec test for a literal tag at position `pos`.
pub fn has_tag(s: &str, n: usize, pos: usize, tag: &str) -> (r: bool)
    requires
        n == s@.len(),
        pos <= n,
    ensures
        r == spec_has_tag(s@, pos as int, tag@),
{
    let tl = tag.unicode_len();
    if tl > n - pos {
        return false;
    }
    let part = s.substring_char(pos, pos + tl);
    str_eq(part, tag)
}

/// A key/value record: the text before the first `:`, then the text after the
/// optional run of spaces or tabs that follows the `:`, up to the CRLF
/// terminator.  `None` when the line has no terminator or no `:` before it.
pub open spec fn spec_kv(s: Seq<char>, pos: int) -> Option<(int, Seq<char>, Seq<char>)> {
    match spec_find_crlf(s, pos) {
        None => None,
        Some(e) => match spec_find_char(s, pos, ':') {
            None => None,
            Some(c) => if 0 <= pos && pos <= c && c < e && e + 2 <= s.len() {
                let v0 = spec_skip_ws(s, c + 1, e);
                Some((e + 2, s.subrange(pos, c), s.subrange(v0, e)))
            } else {
                None
            },
        },
    }
}

/// Exec key/value record reader; yields the position after the terminator.
pub fn kv(s: &str, n: usize, pos: usize) -> (r: Option<(usize, String, String)>)
    requires
        n == s@.len(),
        pos <= n,
    ensures
        match r {
            Some(p) => spec_kv(s@, pos as int) == Some((p.0 as int, p.1@, p.2@)) && pos < p.0
                && p.0 <= n,
            None => spec_kv(s@, pos as int) is None,
        },
{
    let e = match find_crlf(s, n, pos) {
        None => {
            return None;
        },
        Some(e) => e,
    };
    let c = match find_char(s, n, pos, ':') {
        None => {
            return None;
        },
        Some(c) => c,
    };
    if c >= e {
        return None;
    }
    let v0 = skip_ws(s, n, c + 1, e);
    let key = s.substring_char(pos, c).to_owned();
    let val = s.substring_char(v0, e).to_owned();
    Some((e + 2, key, val))
}

/// The fields of `t` split on commas; a text without a comma is one field.
pub open spec fn spec_fields(t: Seq<char>) -> Seq<Seq<char>>
    decreases t.len(),
{
    match spec_find_char(t, 0, ',') {
        None => seq![t],
        Some(i) => if 0 <= i && i < t.len() {
            seq![t.subrange(0, i)] + spec_fields(t.subrange(i + 1, t.len() as int))
        } else {
            seq![t]
        },
    }
}

/// Exec comma splitter.
pub fn split_fields(t: &str) -> (r: Vec<String>)
    ensures
        r.deep_view() == spec_fields(t@),
    decreases t@.len(),
{
    let n = t.unicode_len();
    match find_char(t, n, 0, ',') {
        None => {
            let mut v: Vec<String> = Vec::new();
            v.push(t.to_owned());
            proof {
                assert(v.deep_view() =~= spec_fields(t@));
            }
            v
        },
        Some(i) => {
            let head = t.substring_char(0, i).to_owned();
            let tail = t.substring_char(i + 1, n);
            let mut rest = split_fields(tail);
            let mut v: Vec<String> = Vec::new();
            v.push(head);
            v.append(&mut rest);
            proof {
                assert(v.deep_view() =~= spec_fields(t@));
            }
            v
        },
    }
}

/// A comma record: a non-blank line up to its CRLF terminator, split on
/// commas.  `None` when the line is blank or has no terminator.
pub open spec fn spec_comma_record(s: Seq<char>, pos: int) -> Option<(int, Seq<Seq<char>>)> {
    match spec_find_crlf(s, pos) {
        None => None,
        Some(e) => if 0 <= pos && pos < e && e + 2 <= s.len() {
            Some((e + 2, spec_fields(s.subrange(pos, e))))
        } else {
            None
        },
    }
}

/// Exec comma-record reader; yields the position after the terminator.
pub fn comma_record(s: &str, n: usize, pos: usize) -> (r: Option<(usize, Vec<String>)>)
    requires
        n == s@.len(),
        pos <= n,
    ensures
        match r {
            Some(p) => spec_comma_record(s@, pos as int) == Some((p.0 as int, p.1.deep_view()))
                && pos < p.0 && p.0 <= n,
            None => spec_comma_record(s@, pos as int) is None,
        },
{
    let e = match find_crlf(s, n, pos) {
        None => {
            return None;
        },
        Some(e) => e,
    };
    if e == pos {
        return None;
    }
    let line = s.substring_char(pos, e);
    let fields = split_fields(line);
    Some((e + 2, fields))
}

/// Position after the run of `//`-comment lines that starts at `pos`.
pub open spec fn spec_skip_comments(s: Seq<char>, pos: int) -> int
    decreases s.len() - pos,
{
    if 0 <= pos && pos + 2 <= s.len() && s[pos] == '/' && s[pos + 1] == '/' {
        match spec_find_crlf(s, pos) {
            None => pos,
            Some(e) => if pos <= e && e + 2 <= s.len() {
                spec_skip_comments(s, e + 2)
            } else {
                pos
            },
        }
    } else {
        pos
    }
}

pub proof fn lemma_skip_comments(s: Seq<char>, pos: int)
    ensures
        pos <= spec_skip_comments(s, pos),
        pos <= s.len() ==> spec_skip_comments(s, pos) <= s.len(),
    decreases s.len() - pos,
{
    if 0 <= pos && pos + 2 <= s.len() && s[pos] == '/' && s[pos + 1] == '/' {
        lemma_find_crlf(s, pos);
        match spec_find_crlf(s, pos) {
            None => {},
            Some(e) => {
                if pos <= e && e + 2 <= s.len() {
                    lemma_skip_comments(s, e + 2);
                }
            },
        }
    }
}

/// Exec skip over `//`-comment lines.
pub fn skip_comments(s: &str, n: usize, pos: usize) -> (r: usize)
    requires
        n == s@.len(),
        pos <= n,
    ensures
        r == spec_skip_comments(s@, pos as int),
        pos <= r && r <= n,
    decreases n - pos,
{
    if pos < n && pos + 1 < n && s.get_char(pos) == '/' && s.get_char(pos + 1) == '/' {
        match find_crlf(s, n, pos) {
            None => pos,
            Some(e) => skip_comments(s, n, e + 2),
        }
    } else {
        pos
    }
}

/// The text `t` with every leading `"` removed.
pub open spec fn spec_drop_leading_quotes(t: Seq<char>) -> Seq<char>
    decreases t.len(),
{
    if t.len() > 0 && t[0] == '"' {
        spec_drop_leading_quotes(t.subrange(1, t.len() as int))
    } else {
        t
    }
}

/// The text `t` with every trailing `"` removed.
pub open spec fn spec_drop_trailing_quotes(t: Seq<char>) -> Seq<char>
    decreases t.len(),
{
    if t.len() > 0 && t[t.len() - 1] == '"' {
        spec_drop_trailing_quotes(t.subrange(0, t.len() - 1))
    } else {
        t
    }
}

/// The text `t` with every leading and trailing `"` removed.
pub open spec fn spec_trim_quotes(t: Seq<char>) -> Seq<char> {
    spec_drop_trailing_quotes(spec_drop_leading_quotes(t))
}

fn drop_leading_quotes(t: &str) -> (r: String)
    ensures
        r@ == spec_drop_leading_quotes(t@),
    decreases t@.len(),
{
    let n = t.unicode_len();
    if n > 0 && t.get_char(0) == '"' {
        drop_leading_quotes(t.substring_char(1, n))
    } else {
        t.to_owned()
    }
}

fn drop_trailing_quotes(t: &str) -> (r: String)
    ensures
        r@ == spec_drop_trailing_quotes(t@),
    decreases t@.len(),
{
    let n = t.unicode_len();
    if n > 0 && t.get_char(n - 1) == '"' {
        drop_trailing_quotes(t.substring_char(0, n - 1))
    } else {
        t.to_owned()
    }
}

/// Exec trim of leading and trailing `"` characters.
pub fn trim_quotes(t: &str) -> (r: String)
    ensures
        r@ == spec_trim_quotes(t@),
{
    let lead = drop_leading_quotes(t);
    drop_trailing_quotes(lead.as_str())
}

} // verus!
