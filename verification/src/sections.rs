//! The section decoders.  Each one recognizes its bracketed header tag,
//! consumes records until its terminator, and populates its section type;
//! a decoder whose tag is absent reports "no match" so the assembler can try
//! the next candidate.

use vstd::prelude::*;

use crate::hitobj::parse_hit_obj;
use crate::hitobj::spec_hit_obj_of;
use crate::scan::comma_record;
use crate::scan::crlf_at;
use crate::scan::find_char;
use crate::scan::find_crlf;
use crate::scan::has_tag;
use crate::scan::is_crlf_at;
use crate::scan::kv;
use crate::scan::skip_comments;
use crate::scan::spec_comma_record;
use crate::scan::spec_fields;
use crate::scan::spec_find_char;
use crate::scan::spec_find_crlf;
use crate::scan::spec_has_tag;
use crate::scan::spec_kv;
use crate::scan::spec_skip_comments;
use crate::scan::spec_trim_quotes;
use crate::scan::split_fields;
use crate::scan::trim_quotes;
use crate::traits::StructMap;
use crate::types::spec_colour_from_fields;
use crate::types::spec_general_of;
use crate::types::spec_editor_of;
use crate::types::spec_metadata_of;
use crate::types::spec_difficulty_of;
use crate::types::spec_timing_point_from_fields;
use crate::types::Colour;
use crate::types::Difficulty;
use crate::types::Editor;
use crate::types::EditorView;
use crate::types::Events;
use crate::types::EventsView;
use crate::types::General;
use crate::types::GeneralView;
use crate::types::HitObj;
use crate::types::Metadata;
use crate::types::MetadataView;
use crate::types::TimingPoint;

verus! {

/// One of the eight declared sections of a document.
#[derive(Clone, Copy, Debug, PartialEq, Eq)]
pub enum SectionId {
    General,
    Editor,
    Metadata,
    Difficulty,
    Events,
    TimingPoints,
    Colours,
    HitObjects,
}

/// A structural decoding failure.  Field-level conversion problems are
/// absorbed by the populator and never appear here.
#[derive(Clone, Copy, Debug, PartialEq, Eq)]
pub enum OsuError {
    /// A required literal tag, delimiter, or line terminator is missing at
    /// the expected position.
    Syntax,
    /// The named section's header never matched during assembly.
    MissingSection(SectionId),
    /// The named section's header matched a second time.
    DuplicateSection(SectionId),
    /// A comma record in the named section had fewer fields than its
    /// positional decoder requires.
    MalformedRecord(SectionId),
}

/// Position after a section header: the literal `tag` at `pos` followed by a
/// line terminator.  `Ok(None)` when the tag is absent; `Err` when the tag
/// stands without its terminator.
pub open spec fn spec_header(s: Seq<char>, pos: int, tag: Seq<char>) -> Result<
    Option<int>,
    OsuError,
> {
    if !spec_has_tag(s, pos, tag) {
        Ok(None)
    } else if crlf_at(s, pos + tag.len()) {
        Ok(Some(pos + tag.len() + 2))
    } else {
        Err(OsuError::Syntax)
    }
}

/// Exec header reader.
pub fn header(s: &str, n: usize, pos: usize, tag: &str) -> (r: Result<Option<usize>, OsuError>)
    requires
        n == s@.len(),
        pos <= n,
    ensures
        match r {
            Ok(Some(p)) => spec_header(s@, pos as int, tag@) == Ok::<Option<int>, OsuError>(
                Some(p as int),
            ) && pos < p && p <= n,
            Ok(None) => spec_header(s@, pos as int, tag@) == Ok::<Option<int>, OsuError>(None),
            Err(e) => spec_header(s@, pos as int, tag@) == Err::<Option<int>, OsuError>(e),
        },
{
    if !has_tag(s, n, pos, tag) {
        return Ok(None);
    }
    let tl = tag.unicode_len();
    if is_crlf_at(s, n, pos + tl) {
        Ok(Some(pos + tl + 2))
    } else {
        Err(OsuError::Syntax)
    }
}

/// The key/value records from `pos` up to and including a blank line.
pub open spec fn spec_kv_pairs(s: Seq<char>, pos: int) -> Result<
    (int, Seq<(Seq<char>, Seq<char>)>),
    OsuError,
>
    decreases s.len() - pos,
{
    if crlf_at(s, pos) {
        Ok((pos + 2, seq![]))
    } else {
        match spec_kv(s, pos) {
            None => Err(OsuError::Syntax),
            Some((p, k, v)) => if pos < p <= s.len() {
                match spec_kv_pairs(s, p) {
                    Ok((q, rest)) => Ok((q, seq![(k, v)] + rest)),
                    Err(e) => Err(e),
                }
            } else {
                Err(OsuError::Syntax)
            },
        }
    }
}

/// Exec key/value record reader for one whole section body.
pub fn kv_pairs(s: &str, n: usize, pos: usize) -> (r: Result<
    (usize, Vec<(String, String)>),
    OsuError,
>)
    requires
        n == s@.len(),
        pos <= n,
    ensures
        match r {
            Ok(p) => spec_kv_pairs(s@, pos as int) == Ok::<(int, Seq<(Seq<char>, Seq<char>)>),
                OsuError,
            >((p.0 as int, p.1.deep_view())) && pos < p.0 && p.0 <= n,
            Err(e) => spec_kv_pairs(s@, pos as int) == Err::<
                (int, Seq<(Seq<char>, Seq<char>)>),
                OsuError,
            >(e),
        },
    decreases n - pos,
{
    if is_crlf_at(s, n, pos) {
        let out: Vec<(String, String)> = Vec::new();
        proof {
            assert(out.deep_view() =~= Seq::<(Seq<char>, Seq<char>)>::empty());
        }
        return Ok((pos + 2, out));
    }
    match kv(s, n, pos) {
        None => Err(OsuError::Syntax),
        Some((p, key, val)) => {
            match kv_pairs(s, n, p) {
                Ok((q, mut rest)) => {
                    let ghost old_dv = rest.deep_view();
                    rest.insert(0, (key, val));
                    proof {
                        assert(rest.deep_view() =~= seq![(key@, val@)] + old_dv);
                    }
                    Ok((q, rest))
                },
                Err(e) => Err(e),
            }
        },
    }
}

/// A key/value section: its header, its records, and the blank-line
/// terminator; the records populate the section type.
pub open spec fn spec_section_general(s: Seq<char>, pos: int) -> Result<
    Option<(int, GeneralView)>,
    OsuError,
> {
    match spec_header(s, pos, "[General]"@) {
        Err(e) => Err(e),
        Ok(None) => Ok(None),
        Ok(Some(p)) => match spec_kv_pairs(s, p) {
            Err(e) => Err(e),
            Ok((q, pairs)) => Ok(Some((q, spec_general_of(pairs)))),
        },
    }
}

/// Exec decoder for the General section.
pub fn section_general(s: &str, n: usize, pos: usize) -> (r: Result<
    Option<(usize, General)>,
    OsuError,
>)
    requires
        n == s@.len(),
        pos <= n,
    ensures
        match r {
            Ok(Some(p)) => spec_section_general(s@, pos as int) == Ok::<
                Option<(int, GeneralView)>,
                OsuError,
            >(Some((p.0 as int, p.1@))) && pos < p.0 && p.0 <= n,
            Ok(None) => spec_section_general(s@, pos as int) == Ok::<
                Option<(int, GeneralView)>,
                OsuError,
            >(None),
            Err(e) => spec_section_general(s@, pos as int) == Err::<
                Option<(int, GeneralView)>,
                OsuError,
            >(e),
        },
{
    match header(s, n, pos, "[General]") {
        Err(e) => Err(e),
        Ok(None) => Ok(None),
        Ok(Some(p)) => match kv_pairs(s, n, p) {
            Err(e) => Err(e),
            Ok((q, pairs)) => Ok(Some((q, General::from_tuples(&pairs)))),
        },
    }
}

/// The Editor analogue of [`spec_section_general`].
pub open spec fn spec_section_editor(s: Seq<char>, pos: int) -> Result<
    Option<(int, EditorView)>,
    OsuError,
> {
    match spec_header(s, pos, "[Editor]"@) {
        Err(e) => Err(e),
        Ok(None) => Ok(None),
        Ok(Some(p)) => match spec_kv_pairs(s, p) {
            Err(e) => Err(e),
            Ok((q, pairs)) => Ok(Some((q, spec_editor_of(pairs)))),
        },
    }
}

/// Exec decoder for the Editor section.
pub fn section_editor(s: &str, n: usize, pos: usize) -> (r: Result<
    Option<(usize, Editor)>,
    OsuError,
>)
    requires
        n == s@.len(),
        pos <= n,
    ensures
        match r {
            Ok(Some(p)) => spec_section_editor(s@, pos as int) == Ok::<
                Option<(int, EditorView)>,
                OsuError,
            >(Some((p.0 as int, p.1@))) && pos < p.0 && p.0 <= n,
            Ok(None) => spec_section_editor(s@, pos as int) == Ok::<
                Option<(int, EditorView)>,
                OsuError,
            >(None),
            Err(e) => spec_section_editor(s@, pos as int) == Err::<
                Option<(int, EditorView)>,
                OsuError,
            >(e),
        },
{
    match header(s, n, pos, "[Editor]") {
        Err(e) => Err(e),
        Ok(None) => Ok(None),
        Ok(Some(p)) => match kv_pairs(s, n, p) {
            Err(e) => Err(e),
            Ok((q, pairs)) => Ok(Some((q, Editor::from_tuples(&pairs)))),
        },
    }
}

/// The Metadata analogue of [`spec_section_general`].
pub open spec fn spec_section_metadata(s: Seq<char>, pos: int) -> Result<
    Option<(int, MetadataView)>,
    OsuError,
> {
    match spec_header(s, pos, "[Metadata]"@) {
        Err(e) => Err(e),
        Ok(None) => Ok(None),
        Ok(Some(p)) => match spec_kv_pairs(s, p) {
            Err(e) => Err(e),
            Ok((q, pairs)) => Ok(Some((q, spec_metadata_of(pairs)))),
        },
    }
}

/// Exec decoder for the Metadata section.
pub fn section_metadata(s: &str, n: usize, pos: usize) -> (r: Result<
    Option<(usize, Metadata)>,
    OsuError,
>)
    requires
        n == s@.len(),
        pos <= n,
    ensures
        match r {
            Ok(Some(p)) => spec_section_metadata(s@, pos as int) == Ok::<
                Option<(int, MetadataView)>,
                OsuError,
            >(Some((p.0 as int, p.1@))) && pos < p.0 && p.0 <= n,
            Ok(None) => spec_section_metadata(s@, pos as int) == Ok::<
                Option<(int, MetadataView)>,
                OsuError,
            >(None),
            Err(e) => spec_section_metadata(s@, pos as int) == Err::<
                Option<(int, MetadataView)>,
                OsuError,
            >(e),
        },
{
    match header(s, n, pos, "[Metadata]") {
        Err(e) => Err(e),
        Ok(None) => Ok(None),
        Ok(Some(p)) => match kv_pairs(s, n, p) {
            Err(e) => Err(e),
            Ok((q, pairs)) => Ok(Some((q, Metadata::from_tuples(&pairs)))),
        },
    }
}

/// The Difficulty analogue of [`spec_section_general`].
pub open spec fn spec_section_difficulty(s: Seq<char>, pos: int) -> Result<
    Option<(int, Difficulty)>,
    OsuError,
> {
    match spec_header(s, pos, "[Difficulty]"@) {
        Err(e) => Err(e),
        Ok(None) => Ok(None),
        Ok(Some(p)) => match spec_kv_pairs(s, p) {
            Err(e) => Err(e),
            Ok((q, pairs)) => Ok(Some((q, spec_difficulty_of(pairs)))),
        },
    }
}

/// Exec decoder for the Difficulty section.
pub fn section_difficulty(s: &str, n: usize, pos: usize) -> (r: Result<
    Option<(usize, Difficulty)>,
    OsuError,
>)
    requires
        n == s@.len(),
        pos <= n,
    ensures
        match r {
            Ok(Some(p)) => spec_section_difficulty(s@, pos as int) == Ok::<
                Option<(int, Difficulty)>,
                OsuError,
            >(Some((p.0 as int, p.1))) && pos < p.0 && p.0 <= n,
            Ok(None) => spec_section_difficulty(s@, pos as int) == Ok::<
                Option<(int, Difficulty)>,
                OsuError,
            >(None),
            Err(e) => spec_section_difficulty(s@, pos as int) == Err::<
                Option<(int, Difficulty)>,
                OsuError,
            >(e),
        },
{
    match header(s, n, pos, "[Difficulty]") {
        Err(e) => Err(e),
        Ok(None) => Ok(None),
        Ok(Some(p)) => match kv_pairs(s, n, p) {
            Err(e) => Err(e),
            Ok((q, pairs)) => Ok(Some((q, Difficulty::from_tuples(&pairs)))),
        },
    }
}

/// The Events section: its header, optional comment lines, a background
/// record and a video record, then everything up to the next `[`.  A record
/// of the wrong arity yields an empty path, not a failure.
pub open spec fn spec_section_events(s: Seq<char>, pos: int) -> Result<
    Option<(int, EventsView)>,
    OsuError,
> {
    match spec_header(s, pos, "[Events]"@) {
        Err(e) => Err(e),
        Ok(None) => Ok(None),
        Ok(Some(p0)) => {
            let p1 = spec_skip_comments(s, p0);
            match spec_comma_record(s, p1) {
                None => Err(OsuError::Syntax),
                Some((p2, bg)) => {
                    let p3 = spec_skip_comments(s, p2);
                    match spec_comma_record(s, p3) {
                        None => Err(OsuError::Syntax),
                        Some((p4, mv)) => match spec_find_char(s, p4, '[') {
                            None => Err(OsuError::Syntax),
                            Some(b) => Ok(
                                Some(
                                    (
                                        b,
                                        EventsView {
                                            background: if bg.len() == 5 {
                                                spec_trim_quotes(bg[2])
                                            } else {
                                                seq![]
                                            },
                                            video: if mv.len() == 3 {
                                                spec_trim_quotes(mv[2])
                                            } else {
                                                seq![]
                                            },
                                        },
                                    ),
                                ),
                            ),
                        },
                    }
                },
            }
        },
    }
}

/// Exec decoder for the Events section.
pub fn section_events(s: &str, n: usize, pos: usize) -> (r: Result<
    Option<(usize, Events)>,
    OsuError,
>)
    requires
        n == s@.len(),
        pos <= n,
    ensures
        match r {
            Ok(Some(p)) => spec_section_events(s@, pos as int) == Ok::<
                Option<(int, EventsView)>,
                OsuError,
            >(Some((p.0 as int, p.1@))) && pos < p.0 && p.0 <= n,
            Ok(None) => spec_section_events(s@, pos as int) == Ok::<
                Option<(int, EventsView)>,
                OsuError,
            >(None),
            Err(e) => spec_section_events(s@, pos as int) == Err::<
                Option<(int, EventsView)>,
                OsuError,
            >(e),
        },
{
    let p0 = match header(s, n, pos, "[Events]") {
        Err(e) => {
            return Err(e);
        },
        Ok(None) => {
            return Ok(None);
        },
        Ok(Some(p0)) => p0,
    };
    let p1 = skip_comments(s, n, p0);
    let (p2, bg) = match comma_record(s, n, p1) {
        None => {
            return Err(OsuError::Syntax);
        },
        Some(r) => r,
    };
    let p3 = skip_comments(s, n, p2);
    let (p4, mv) = match comma_record(s, n, p3) {
        None => {
            return Err(OsuError::Syntax);
        },
        Some(r) => r,
    };
    let b = match find_char(s, n, p4, '[') {
        None => {
            return Err(OsuError::Syntax);
        },
        Some(b) => b,
    };
    let background = if bg.len() == 5 {
        trim_quotes(bg[2].as_str())
    } else {
        String::new()
    };
    let video = if mv.len() == 3 {
        trim_quotes(mv[2].as_str())
    } else {
        String::new()
    };
    proof {
        assert(bg.deep_view().len() == bg@.len());
        assert(mv.deep_view().len() == mv@.len());
    }
    Ok(Some((b, Events { background, video })))
}

/// The timing-point records from `pos` up to and including a blank line.
/// A record with fewer than eight fields is a malformed-record failure.
pub open spec fn spec_tp_records(s: Seq<char>, pos: int) -> Result<
    (int, Seq<TimingPoint>),
    OsuError,
>
    decreases s.len() - pos,
{
    if crlf_at(s, pos) {
        Ok((pos + 2, seq![]))
    } else {
        match spec_comma_record(s, pos) {
            None => Err(OsuError::Syntax),
            Some((p, fs)) => match spec_timing_point_from_fields(fs) {
                None => Err(OsuError::MalformedRecord(SectionId::TimingPoints)),
                Some(tp) => if pos < p <= s.len() {
                    match spec_tp_records(s, p) {
                        Ok((q, rest)) => Ok((q, seq![tp] + rest)),
                        Err(e) => Err(e),
                    }
                } else {
                    Err(OsuError::Syntax)
                },
            },
        }
    }
}

/// Exec timing-point record reader.
pub fn tp_records(s: &str, n: usize, pos: usize) -> (r: Result<(usize, Vec<TimingPoint>), OsuError>)
    requires
        n == s@.len(),
        pos <= n,
    ensures
        match r {
            Ok(p) => spec_tp_records(s@, pos as int) == Ok::<(int, Seq<TimingPoint>), OsuError>(
                (p.0 as int, p.1@),
            ) && pos < p.0 && p.0 <= n,
            Err(e) => spec_tp_records(s@, pos as int) == Err::<(int, Seq<TimingPoint>), OsuError>(
                e,
            ),
        },
    decreases n - pos,
{
    if is_crlf_at(s, n, pos) {
        return Ok((pos + 2, Vec::new()));
    }
    match comma_record(s, n, pos) {
        None => Err(OsuError::Syntax),
        Some((p, fields)) => match TimingPoint::from_vec(&fields) {
            None => Err(OsuError::MalformedRecord(SectionId::TimingPoints)),
            Some(tp) => match tp_records(s, n, p) {
                Ok((q, mut rest)) => {
                    let ghost old_rest = rest@;
                    rest.insert(0, tp);
                    proof {
                        assert(rest@ =~= seq![tp] + old_rest);
                    }
                    Ok((q, rest))
                },
                Err(e) => Err(e),
            },
        },
    }
}

/// The TimingPoints section: its header, its records, the blank line, and
/// everything up to the next `[`.
pub open spec fn spec_section_timing_points(s: Seq<char>, pos: int) -> Result<
    Option<(int, Seq<TimingPoint>)>,
    OsuError,
> {
    match spec_header(s, pos, "[TimingPoints]"@) {
        Err(e) => Err(e),
        Ok(None) => Ok(None),
        Ok(Some(p)) => match spec_tp_records(s, p) {
            Err(e) => Err(e),
            Ok((q, tps)) => match spec_find_char(s, q, '[') {
                None => Err(OsuError::Syntax),
                Some(b) => Ok(Some((b, tps))),
            },
        },
    }
}

/// Exec decoder for the TimingPoints section.
pub fn section_timing_points(s: &str, n: usize, pos: usize) -> (r: Result<
    Option<(usize, Vec<TimingPoint>)>,
    OsuError,
>)
    requires
        n == s@.len(),
        pos <= n,
    ensures
        match r {
            Ok(Some(p)) => spec_section_timing_points(s@, pos as int) == Ok::<
                Option<(int, Seq<TimingPoint>)>,
                OsuError,
            >(Some((p.0 as int, p.1@))) && pos < p.0 && p.0 <= n,
            Ok(None) => spec_section_timing_points(s@, pos as int) == Ok::<
                Option<(int, Seq<TimingPoint>)>,
                OsuError,
            >(None),
            Err(e) => spec_section_timing_points(s@, pos as int) == Err::<
                Option<(int, Seq<TimingPoint>)>,
                OsuError,
            >(e),
        },
{
    match header(s, n, pos, "[TimingPoints]") {
        Err(e) => Err(e),
        Ok(None) => Ok(None),
        Ok(Some(p)) => match tp_records(s, n, p) {
            Err(e) => Err(e),
            Ok((q, tps)) => match find_char(s, n, q, '[') {
                None => Err(OsuError::Syntax),
                Some(b) => Ok(Some((b, tps))),
            },
        },
    }
}

/// The colour records from `pos` up to and including a blank line: each line
/// is a key/value record whose value splits on commas into at least three
/// channel fields.
pub open spec fn spec_colour_records(s: Seq<char>, pos: int) -> Result<
    (int, Seq<Colour>),
    OsuError,
>
    decreases s.len() - pos,
{
    if crlf_at(s, pos) {
        Ok((pos + 2, seq![]))
    } else {
        match spec_kv(s, pos) {
            None => Err(OsuError::Syntax),
            Some((p, k, v)) => match spec_colour_from_fields(spec_fields(v)) {
                None => Err(OsuError::MalformedRecord(SectionId::Colours)),
                Some(c) => if pos < p <= s.len() {
                    match spec_colour_records(s, p) {
                        Ok((q, rest)) => Ok((q, seq![c] + rest)),
                        Err(e) => Err(e),
                    }
                } else {
                    Err(OsuError::Syntax)
                },
            },
        }
    }
}

/// Exec colour record reader.
pub fn colour_records(s: &str, n: usize, pos: usize) -> (r: Result<(usize, Vec<Colour>), OsuError>)
    requires
        n == s@.len(),
        pos <= n,
    ensures
        match r {
            Ok(p) => spec_colour_records(s@, pos as int) == Ok::<(int, Seq<Colour>), OsuError>(
                (p.0 as int, p.1@),
            ) && pos < p.0 && p.0 <= n,
            Err(e) => spec_colour_records(s@, pos as int) == Err::<(int, Seq<Colour>), OsuError>(
                e,
            ),
        },
    decreases n - pos,
{
    if is_crlf_at(s, n, pos) {
        return Ok((pos + 2, Vec::new()));
    }
    match kv(s, n, pos) {
        None => Err(OsuError::Syntax),
        Some((p, _key, val)) => {
            let fields = split_fields(val.as_str());
            match Colour::from_vec(&fields) {
                None => Err(OsuError::MalformedRecord(SectionId::Colours)),
                Some(c) => match colour_records(s, n, p) {
                    Ok((q, mut rest)) => {
                        let ghost old_rest = rest@;
                        rest.insert(0, c);
                        proof {
                            assert(rest@ =~= seq![c] + old_rest);
                        }
                        Ok((q, rest))
                    },
                    Err(e) => Err(e),
                },
            }
        },
    }
}

/// The Colours section: its header, its records, the blank line, and
/// everything up to the next `[`.
pub open spec fn spec_section_colours(s: Seq<char>, pos: int) -> Result<
    Option<(int, Seq<Colour>)>,
    OsuError,
> {
    match spec_header(s, pos, "[Colours]"@) {
        Err(e) => Err(e),
        Ok(None) => Ok(None),
        Ok(Some(p)) => match spec_colour_records(s, p) {
            Err(e) => Err(e),
            Ok((q, cs)) => match spec_find_char(s, q, '[') {
                None => Err(OsuError::Syntax),
                Some(b) => Ok(Some((b, cs))),
            },
        },
    }
}

/// Exec decoder for the Colours section.
pub fn section_colours(s: &str, n: usize, pos: usize) -> (r: Result<
    Option<(usize, Vec<Colour>)>,
    OsuError,
>)
    requires
        n == s@.len(),
        pos <= n,
    ensures
        match r {
            Ok(Some(p)) => spec_section_colours(s@, pos as int) == Ok::<
                Option<(int, Seq<Colour>)>,
                OsuError,
            >(Some((p.0 as int, p.1@))) && pos < p.0 && p.0 <= n,
            Ok(None) => spec_section_colours(s@, pos as int) == Ok::<
                Option<(int, Seq<Colour>)>,
                OsuError,
            >(None),
            Err(e) => spec_section_colours(s@, pos as int) == Err::<
                Option<(int, Seq<Colour>)>,
                OsuError,
            >(e),
        },
{
    match header(s, n, pos, "[Colours]") {
        Err(e) => Err(e),
        Ok(None) => Ok(None),
        Ok(Some(p)) => match colour_records(s, n, p) {
            Err(e) => Err(e),
            Ok((q, cs)) => match find_char(s, n, q, '[') {
                None => Err(OsuError::Syntax),
                Some(b) => Ok(Some((b, cs))),
            },
        },
    }
}

/// The hit-object records from `pos`: every record line in turn, stopping at
/// the end of the input, a blank line, a line that opens the next section, or
/// a line without a terminator.  A record shorter than its variant requires
/// is a malformed-record failure.
pub open spec fn spec_hit_records(s: Seq<char>, pos: int) -> Result<(int, Seq<HitObj>), OsuError>
    decreases s.len() - pos,
{
    if pos >= s.len() || crlf_at(s, pos) || (0 <= pos < s.len() && s[pos] == '[') || spec_find_crlf(
        s,
        pos,
    ) is None {
        Ok((pos, seq![]))
    } else {
        match spec_comma_record(s, pos) {
            None => Ok((pos, seq![])),
            Some((p, fs)) => match spec_hit_obj_of(fs) {
                None => Err(OsuError::MalformedRecord(SectionId::HitObjects)),
                Some(h) => if pos < p <= s.len() {
                    match spec_hit_records(s, p) {
                        Ok((q, rest)) => Ok((q, seq![h] + rest)),
                        Err(e) => Err(e),
                    }
                } else {
                    Ok((pos, seq![]))
                },
            },
        }
    }
}

/// Exec hit-object record reader.
pub fn hit_records(s: &str, n: usize, pos: usize) -> (r: Result<(usize, Vec<HitObj>), OsuError>)
    requires
        n == s@.len(),
        pos <= n,
    ensures
        match r {
            Ok(p) => spec_hit_records(s@, pos as int) == Ok::<(int, Seq<HitObj>), OsuError>(
                (p.0 as int, p.1@),
            ) && pos <= p.0 && p.0 <= n && (p.1@.len() > 0 ==> pos < p.0),
            Err(e) => spec_hit_records(s@, pos as int) == Err::<(int, Seq<HitObj>), OsuError>(e),
        },
    decreases n - pos,
{
    if pos >= n || is_crlf_at(s, n, pos) || s.get_char(pos) == '[' {
        return Ok((pos, Vec::new()));
    }
    if find_crlf(s, n, pos).is_none() {
        return Ok((pos, Vec::new()));
    }
    match comma_record(s, n, pos) {
        None => Ok((pos, Vec::new())),
        Some((p, fields)) => match parse_hit_obj(&fields) {
            None => Err(OsuError::MalformedRecord(SectionId::HitObjects)),
            Some(h) => match hit_records(s, n, p) {
                Ok((q, mut rest)) => {
                    let ghost old_rest = rest@;
                    rest.insert(0, h);
                    proof {
                        assert(rest@ =~= seq![h] + old_rest);
                    }
                    Ok((q, rest))
                },
                Err(e) => Err(e),
            },
        },
    }
}

/// The HitObjects section: its header, then one hit object per record line;
/// a section with no record at all does not match.
pub open spec fn spec_section_hit_objects(s: Seq<char>, pos: int) -> Result<
    Option<(int, Seq<HitObj>)>,
    OsuError,
> {
    match spec_header(s, pos, "[HitObjects]"@) {
        Err(e) => Err(e),
        Ok(None) => Ok(None),
        Ok(Some(p)) => match spec_hit_records(s, p) {
            Err(e) => Err(e),
            Ok((q, hs)) => if hs.len() == 0 {
                Ok(None)
            } else {
                Ok(Some((q, hs)))
            },
        },
    }
}

/// Exec decoder for the HitObjects section.
pub fn section_hit_objects(s: &str, n: usize, pos: usize) -> (r: Result<
    Option<(usize, Vec<HitObj>)>,
    OsuError,
>)
    requires
        n == s@.len(),
        pos <= n,
    ensures
        match r {
            Ok(Some(p)) => spec_section_hit_objects(s@, pos as int) == Ok::<
                Option<(int, Seq<HitObj>)>,
                OsuError,
            >(Some((p.0 as int, p.1@))) && pos < p.0 && p.0 <= n,
            Ok(None) => spec_section_hit_objects(s@, pos as int) == Ok::<
                Option<(int, Seq<HitObj>)>,
                OsuError,
            >(None),
            Err(e) => spec_section_hit_objects(s@, pos as int) == Err::<
                Option<(int, Seq<HitObj>)>,
                OsuError,
            >(e),
        },
{
    match header(s, n, pos, "[HitObjects]") {
        Err(e) => Err(e),
        Ok(None) => Ok(None),
        Ok(Some(p)) => match hit_records(s, n, p) {
            Err(e) => Err(e),
            Ok((q, hs)) => {
                if hs.len() == 0 {
                    Ok(None)
                } else {
                    Ok(Some((q, hs)))
                }
            },
        },
    }
}

} // verus!
