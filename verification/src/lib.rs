//! Decoder for the line-oriented, section-structured beatmap text format.
//!
//! The crate turns an input string into a fully typed [`Osu`] document or a
//! single structural error.  Every decoding step is specified by a spec-level
//! grammar function and the executable decoder is proved to follow it
//! exactly: the top-level contract ties [`parse_osu`] to [`spec_parse_osu`].

pub mod convert;
pub mod fields;
pub mod hitobj;
pub mod laws;
pub mod scan;
pub mod sections;
pub mod traits;
pub mod types;

use vstd::prelude::*;

use crate::convert::all_digits;
use crate::convert::fold_digits;
use crate::convert::is_digit;
use crate::convert::lemma_fold_lower_bound;
use crate::convert::seq_digits_val;
use crate::scan::crlf_at;
use crate::scan::has_tag;
use crate::scan::is_crlf_at;
use crate::scan::skip_multispace;
use crate::scan::spec_has_tag;
use crate::scan::spec_skip_multispace;
use crate::sections::section_colours;
use crate::sections::section_difficulty;
use crate::sections::section_editor;
use crate::sections::section_events;
use crate::sections::section_general;
use crate::sections::section_hit_objects;
use crate::sections::section_metadata;
use crate::sections::section_timing_points;
use crate::sections::spec_section_colours;
use crate::sections::spec_section_difficulty;
use crate::sections::spec_section_editor;
use crate::sections::spec_section_events;
use crate::sections::spec_section_general;
use crate::sections::spec_section_hit_objects;
use crate::sections::spec_section_metadata;
use crate::sections::spec_section_timing_points;
use crate::sections::OsuError;
use crate::sections::SectionId;
use crate::types::Colour;
use crate::types::Difficulty;
use crate::types::Editor;
use crate::types::EditorView;
use crate::types::Events;
use crate::types::EventsView;
use crate::types::General;
use crate::types::GeneralView;
use crate::types::HitObj;
use crate::types::Metadata;
use crate::types::MetadataView;
use crate::types::TimingPoint;

verus! {

/// A fully decoded document: the version number and the eight sections, with
/// the timing points, colours and hit objects in file order.
#[derive(Debug, Clone, PartialEq)]
pub struct Osu {
    pub version: u32,
    pub general: General,
    pub editor: Editor,
    pub metadata: Metadata,
    pub difficulty: Difficulty,
    pub events: Events,
    pub timing_points: Vec<TimingPoint>,
    pub colours: Vec<Colour>,
    pub hit_objects: Vec<HitObj>,
}

/// Mathematical view of [`Osu`].
pub struct OsuView {
    pub version: u32,
    pub general: GeneralView,
    pub editor: EditorView,
    pub metadata: MetadataView,
    pub difficulty: Difficulty,
    pub events: EventsView,
    pub timing_points: Seq<TimingPoint>,
    pub colours: Seq<Colour>,
    pub hit_objects: Seq<HitObj>,
}

impl View for Osu {
    type V = OsuView;

    open spec fn view(&self) -> OsuView {
        OsuView {
            version: self.version,
            general: self.general@,
            editor: self.editor@,
            metadata: self.metadata@,
            difficulty: self.difficulty,
            events: self.events@,
            timing_points: self.timing_points@,
            colours: self.colours@,
            hit_objects: self.hit_objects@,
        }
    }
}

/// The sections matched so far during assembly.
pub struct DocParts {
    pub general: Option<General>,
    pub editor: Option<Editor>,
    pub metadata: Option<Metadata>,
    pub difficulty: Option<Difficulty>,
    pub events: Option<Events>,
    pub timing_points: Option<Vec<TimingPoint>>,
    pub colours: Option<Vec<Colour>>,
    pub hit_objects: Option<Vec<HitObj>>,
}

/// Mathematical view of [`DocParts`].
pub struct PartialDoc {
    pub general: Option<GeneralView>,
    pub editor: Option<EditorView>,
    pub metadata: Option<MetadataView>,
    pub difficulty: Option<Difficulty>,
    pub events: Option<EventsView>,
    pub timing_points: Option<Seq<TimingPoint>>,
    pub colours: Option<Seq<Colour>>,
    pub hit_objects: Option<Seq<HitObj>>,
}

impl View for DocParts {
    type V = PartialDoc;

    open spec fn view(&self) -> PartialDoc {
        PartialDoc {
            general: match self.general {
                Some(g) => Some(g@),
                None => None,
            },
            editor: match self.editor {
                Some(e) => Some(e@),
                None => None,
            },
            metadata: match self.metadata {
                Some(m) => Some(m@),
                None => None,
            },
            difficulty: self.difficulty,
            events: match self.events {
                Some(e) => Some(e@),
                None => None,
            },
            timing_points: match self.timing_points {
                Some(t) => Some(t@),
                None => None,
            },
            colours: match self.colours {
                Some(c) => Some(c@),
                None => None,
            },
            hit_objects: match self.hit_objects {
                Some(h) => Some(h@),
                None => None,
            },
        }
    }
}

/// No section matched yet.
pub open spec fn spec_empty_parts() -> PartialDoc {
    PartialDoc {
        general: None,
        editor: None,
        metadata: None,
        difficulty: None,
        events: None,
        timing_points: None,
        colours: None,
        hit_objects: None,
    }
}

/// Every section has matched exactly once.
pub open spec fn spec_complete(st: PartialDoc) -> bool {
    &&& st.general is Some
    &&& st.editor is Some
    &&& st.metadata is Some
    &&& st.difficulty is Some
    &&& st.events is Some
    &&& st.timing_points is Some
    &&& st.colours is Some
    &&& st.hit_objects is Some
}

/// One assembly step: the first not-yet-matched section decoder, in declared
/// order, that matches at `pos`.  `Ok(None)` when none matches.
pub open spec fn spec_step(s: Seq<char>, pos: int, st: PartialDoc) -> Result<
    Option<(int, PartialDoc)>,
    OsuError,
> {
    let r_general = if st.general is None {
        spec_section_general(s, pos)
    } else {
        Ok(None)
    };
    match r_general {
        Err(e) => Err(e),
        Ok(Some((p, v))) => Ok(Some((p, PartialDoc { general: Some(v), ..st }))),
        Ok(None) => {
            let r_editor = if st.editor is None {
                spec_section_editor(s, pos)
            } else {
                Ok(None)
            };
            match r_editor {
                Err(e) => Err(e),
                Ok(Some((p, v))) => Ok(Some((p, PartialDoc { editor: Some(v), ..st }))),
                Ok(None) => {
                    let r_metadata = if st.metadata is None {
                        spec_section_metadata(s, pos)
                    } else {
                        Ok(None)
                    };
                    match r_metadata {
                        Err(e) => Err(e),
                        Ok(Some((p, v))) => Ok(Some((p, PartialDoc { metadata: Some(v), ..st }))),
                        Ok(None) => {
                            let r_difficulty = if st.difficulty is None {
                                spec_section_difficulty(s, pos)
                            } else {
                                Ok(None)
                            };
                            match r_difficulty {
                                Err(e) => Err(e),
                                Ok(Some((p, v))) => Ok(
                                    Some((p, PartialDoc { difficulty: Some(v), ..st })),
                                ),
                                Ok(None) => spec_step_rest(s, pos, st),
                            }
                        },
                    }
                },
            }
        },
    }
}

/// The tail of [`spec_step`]: the last four candidates.
pub open spec fn spec_step_rest(s: Seq<char>, pos: int, st: PartialDoc) -> Result<
    Option<(int, PartialDoc)>,
    OsuError,
> {
    let r_events = if st.events is None {
        spec_section_events(s, pos)
    } else {
        Ok(None)
    };
    match r_events {
        Err(e) => Err(e),
        Ok(Some((p, v))) => Ok(Some((p, PartialDoc { events: Some(v), ..st }))),
        Ok(None) => {
            let r_tps = if st.timing_points is None {
                spec_section_timing_points(s, pos)
            } else {
                Ok(None)
            };
            match r_tps {
                Err(e) => Err(e),
                Ok(Some((p, v))) => Ok(Some((p, PartialDoc { timing_points: Some(v), ..st }))),
                Ok(None) => {
                    let r_cols = if st.colours is None {
                        spec_section_colours(s, pos)
                    } else {
                        Ok(None)
                    };
                    match r_cols {
                        Err(e) => Err(e),
                        Ok(Some((p, v))) => Ok(Some((p, PartialDoc { colours: Some(v), ..st }))),
                        Ok(None) => {
                            let r_hos = if st.hit_objects is None {
                                spec_section_hit_objects(s, pos)
                            } else {
                                Ok(None)
                            };
                            match r_hos {
                                Err(e) => Err(e),
                                Ok(Some((p, v))) => Ok(
                                    Some((p, PartialDoc { hit_objects: Some(v), ..st })),
                                ),
                                Ok(None) => Ok(None),
                            }
                        },
                    }
                },
            }
        },
    }
}

/// The first section, in declared order, that has not matched yet.
pub open spec fn spec_first_missing(st: PartialDoc) -> SectionId {
    if st.general is None {
        SectionId::General
    } else if st.editor is None {
        SectionId::Editor
    } else if st.metadata is None {
        SectionId::Metadata
    } else if st.difficulty is None {
        SectionId::Difficulty
    } else if st.events is None {
        SectionId::Events
    } else if st.timing_points is None {
        SectionId::TimingPoints
    } else if st.colours is None {
        SectionId::Colours
    } else {
        SectionId::HitObjects
    }
}

/// The failure reported when no candidate matches while sections remain
/// outstanding: a duplicate-section failure when an already-matched section's
/// header stands at `pos`, else a missing-section failure naming the first
/// outstanding section.
pub open spec fn spec_stuck_error(s: Seq<char>, pos: int, st: PartialDoc) -> OsuError {
    if st.general is Some && spec_has_tag(s, pos, "[General]"@) {
        OsuError::DuplicateSection(SectionId::General)
    } else if st.editor is Some && spec_has_tag(s, pos, "[Editor]"@) {
        OsuError::DuplicateSection(SectionId::Editor)
    } else if st.metadata is Some && spec_has_tag(s, pos, "[Metadata]"@) {
        OsuError::DuplicateSection(SectionId::Metadata)
    } else if st.difficulty is Some && spec_has_tag(s, pos, "[Difficulty]"@) {
        OsuError::DuplicateSection(SectionId::Difficulty)
    } else if st.events is Some && spec_has_tag(s, pos, "[Events]"@) {
        OsuError::DuplicateSection(SectionId::Events)
    } else if st.timing_points is Some && spec_has_tag(s, pos, "[TimingPoints]"@) {
        OsuError::DuplicateSection(SectionId::TimingPoints)
    } else if st.colours is Some && spec_has_tag(s, pos, "[Colours]"@) {
        OsuError::DuplicateSection(SectionId::Colours)
    } else if st.hit_objects is Some && spec_has_tag(s, pos, "[HitObjects]"@) {
        OsuError::DuplicateSection(SectionId::HitObjects)
    } else {
        OsuError::MissingSection(spec_first_missing(st))
    }
}

/// Exec computation of the stuck-assembly failure.
fn stuck_error(s: &str, n: usize, pos: usize, parts: &DocParts) -> (r: OsuError)
    requires
        n == s@.len(),
        pos <= n,
    ensures
        r == spec_stuck_error(s@, pos as int, parts@),
{
    if parts.general.is_some() && has_tag(s, n, pos, "[General]") {
        OsuError::DuplicateSection(SectionId::General)
    } else if parts.editor.is_some() && has_tag(s, n, pos, "[Editor]") {
        OsuError::DuplicateSection(SectionId::Editor)
    } else if parts.metadata.is_some() && has_tag(s, n, pos, "[Metadata]") {
        OsuError::DuplicateSection(SectionId::Metadata)
    } else if parts.difficulty.is_some() && has_tag(s, n, pos, "[Difficulty]") {
        OsuError::DuplicateSection(SectionId::Difficulty)
    } else if parts.events.is_some() && has_tag(s, n, pos, "[Events]") {
        OsuError::DuplicateSection(SectionId::Events)
    } else if parts.timing_points.is_some() && has_tag(s, n, pos, "[TimingPoints]") {
        OsuError::DuplicateSection(SectionId::TimingPoints)
    } else if parts.colours.is_some() && has_tag(s, n, pos, "[Colours]") {
        OsuError::DuplicateSection(SectionId::Colours)
    } else if parts.hit_objects.is_some() && has_tag(s, n, pos, "[HitObjects]") {
        OsuError::DuplicateSection(SectionId::HitObjects)
    } else if parts.general.is_none() {
        OsuError::MissingSection(SectionId::General)
    } else if parts.editor.is_none() {
        OsuError::MissingSection(SectionId::Editor)
    } else if parts.metadata.is_none() {
        OsuError::MissingSection(SectionId::Metadata)
    } else if parts.difficulty.is_none() {
        OsuError::MissingSection(SectionId::Difficulty)
    } else if parts.events.is_none() {
        OsuError::MissingSection(SectionId::Events)
    } else if parts.timing_points.is_none() {
        OsuError::MissingSection(SectionId::TimingPoints)
    } else if parts.colours.is_none() {
        OsuError::MissingSection(SectionId::Colours)
    } else {
        OsuError::MissingSection(SectionId::HitObjects)
    }
}

/// Order-independent section matching: starting from `st`, repeatedly accept
/// whichever not-yet-matched section decoder succeeds at the cursor, until
/// every section has matched; fail when none matches while sections remain.
pub open spec fn spec_sections(s: Seq<char>, pos: int, st: PartialDoc) -> Result<
    PartialDoc,
    OsuError,
>
    decreases s.len() - pos,
{
    if spec_complete(st) {
        Ok(st)
    } else {
        match spec_step(s, pos, st) {
            Err(e) => Err(e),
            Ok(Some((p, st2))) => if pos < p <= s.len() {
                spec_sections(s, p, st2)
            } else {
                Err(spec_stuck_error(s, pos, st))
            },
            Ok(None) => Err(spec_stuck_error(s, pos, st)),
        }
    }
}

/// Exec tail of one assembly step: the last four candidates.  On no match
/// the parts come back unchanged.
#[verifier::rlimit(60)]
fn step_rest(s: &str, n: usize, pos: usize, parts: DocParts) -> (r: Result<
    (Option<usize>, DocParts),
    OsuError,
>)
    requires
        n == s@.len(),
        pos <= n,
    ensures
        match r {
            Ok((Some(p), out)) => spec_step_rest(s@, pos as int, parts@) == Ok::<
                Option<(int, PartialDoc)>,
                OsuError,
            >(Some((p as int, out@))) && pos < p && p <= n,
            Ok((None, out)) => spec_step_rest(s@, pos as int, parts@) == Ok::<
                Option<(int, PartialDoc)>,
                OsuError,
            >(None) && out@ == parts@,
            Err(e) => spec_step_rest(s@, pos as int, parts@) == Err::<
                Option<(int, PartialDoc)>,
                OsuError,
            >(e),
        },
{
    if parts.events.is_none() {
        match section_events(s, n, pos) {
            Err(e) => {
                return Err(e);
            },
            Ok(Some((p, v))) => {
                return Ok((Some(p), DocParts { events: Some(v), ..parts }));
            },
            Ok(None) => {},
        }
    }
    if parts.timing_points.is_none() {
        match section_timing_points(s, n, pos) {
            Err(e) => {
                return Err(e);
            },
            Ok(Some((p, v))) => {
                return Ok((Some(p), DocParts { timing_points: Some(v), ..parts }));
            },
            Ok(None) => {},
        }
    }
    if parts.colours.is_none() {
        match section_colours(s, n, pos) {
            Err(e) => {
                return Err(e);
            },
            Ok(Some((p, v))) => {
                return Ok((Some(p), DocParts { colours: Some(v), ..parts }));
            },
            Ok(None) => {},
        }
    }
    if parts.hit_objects.is_none() {
        match section_hit_objects(s, n, pos) {
            Err(e) => {
                return Err(e);
            },
            Ok(Some((p, v))) => {
                return Ok((Some(p), DocParts { hit_objects: Some(v), ..parts }));
            },
            Ok(None) => {},
        }
    }
    Ok((None, parts))
}

/// Exec assembly step: the first not-yet-matched section decoder, in
/// declared order, that matches at the cursor.
#[verifier::rlimit(60)]
fn step(s: &str, n: usize, pos: usize, parts: DocParts) -> (r: Result<
    (Option<usize>, DocParts),
    OsuError,
>)
    requires
        n == s@.len(),
        pos <= n,
    ensures
        match r {
            Ok((Some(p), out)) => spec_step(s@, pos as int, parts@) == Ok::<
                Option<(int, PartialDoc)>,
                OsuError,
            >(Some((p as int, out@))) && pos < p && p <= n,
            Ok((None, out)) => spec_step(s@, pos as int, parts@) == Ok::<
                Option<(int, PartialDoc)>,
                OsuError,
            >(None) && out@ == parts@,
            Err(e) => spec_step(s@, pos as int, parts@) == Err::<
                Option<(int, PartialDoc)>,
                OsuError,
            >(e),
        },
{
    if parts.general.is_none() {
        match section_general(s, n, pos) {
            Err(e) => {
                return Err(e);
            },
            Ok(Some((p, v))) => {
                return Ok((Some(p), DocParts { general: Some(v), ..parts }));
            },
            Ok(None) => {},
        }
    }
    if parts.editor.is_none() {
        match section_editor(s, n, pos) {
            Err(e) => {
                return Err(e);
            },
            Ok(Some((p, v))) => {
                return Ok((Some(p), DocParts { editor: Some(v), ..parts }));
            },
            Ok(None) => {},
        }
    }
    if parts.metadata.is_none() {
        match section_metadata(s, n, pos) {
            Err(e) => {
                return Err(e);
            },
            Ok(Some((p, v))) => {
                return Ok((Some(p), DocParts { metadata: Some(v), ..parts }));
            },
            Ok(None) => {},
        }
    }
    if parts.difficulty.is_none() {
        match section_difficulty(s, n, pos) {
            Err(e) => {
                return Err(e);
            },
            Ok(Some((p, v))) => {
                return Ok((Some(p), DocParts { difficulty: Some(v), ..parts }));
            },
            Ok(None) => {},
        }
    }
    step_rest(s, n, pos, parts)
}

/// Exec section-matching loop.
fn sections_loop(s: &str, n: usize, pos: usize, parts: DocParts) -> (r: Result<DocParts, OsuError>)
    requires
        n == s@.len(),
        pos <= n,
    ensures
        match r {
            Ok(out) => spec_sections(s@, pos as int, parts@) == Ok::<PartialDoc, OsuError>(out@)
                && spec_complete(out@),
            Err(e) => spec_sections(s@, pos as int, parts@) == Err::<PartialDoc, OsuError>(e),
        },
    decreases n - pos,
{
    let complete = parts.general.is_some() && parts.editor.is_some() && parts.metadata.is_some()
        && parts.difficulty.is_some() && parts.events.is_some() && parts.timing_points.is_some()
        && parts.colours.is_some() && parts.hit_objects.is_some();
    if complete {
        return Ok(parts);
    }
    match step(s, n, pos, parts) {
        Err(e) => Err(e),
        Ok((Some(p), out)) => sections_loop(s, n, p, out),
        Ok((None, out)) => Err(stuck_error(s, n, pos, &out)),
    }
}

/// First position at or after `pos` that does not hold a digit.
pub open spec fn spec_digits_end(s: Seq<char>, pos: int) -> int
    decreases s.len() - pos,
{
    if 0 <= pos && pos < s.len() && is_digit(s[pos]) {
        spec_digits_end(s, pos + 1)
    } else {
        pos
    }
}

pub proof fn lemma_digits_end(s: Seq<char>, pos: int)
    requires
        0 <= pos <= s.len(),
    ensures
        pos <= spec_digits_end(s, pos) <= s.len(),
        all_digits(s.subrange(pos, spec_digits_end(s, pos))),
    decreases s.len() - pos,
{
    if 0 <= pos && pos < s.len() && is_digit(s[pos]) {
        lemma_digits_end(s, pos + 1);
        let e = spec_digits_end(s, pos);
        assert(forall|i: int|
            0 <= i < e - pos ==> s.subrange(pos, e)[i] == s[pos + i] && (i > 0 ==> s.subrange(
                pos + 1,
                e,
            )[i - 1] == s[pos + i]));
    } else {
        assert(s.subrange(pos, pos).len() == 0);
    }
}

fn digits_end(s: &str, n: usize, pos: usize) -> (e: usize)
    requires
        n == s@.len(),
        pos <= n,
    ensures
        e == spec_digits_end(s@, pos as int),
        pos <= e <= n,
    decreases n - pos,
{
    if pos < n {
        let c = s.get_char(pos);
        let cv = c as u32;
        if 48 <= cv && cv <= 57 {
            return digits_end(s, n, pos + 1);
        }
    }
    pos
}

/// The version number: the digit run that starts at `pos`, read as an
/// unsigned integer that must fit in a `u32`.
pub open spec fn spec_version(s: Seq<char>, pos: int) -> Option<(int, u32)> {
    let e = spec_digits_end(s, pos);
    if pos < e && seq_digits_val(s.subrange(pos, e)) <= u32::MAX {
        Some((e, seq_digits_val(s.subrange(pos, e)) as u32))
    } else {
        None
    }
}

fn version_number(s: &str, n: usize, pos: usize) -> (r: Option<(usize, u32)>)
    requires
        n == s@.len(),
        pos <= n,
    ensures
        match r {
            Some(p) => spec_version(s@, pos as int) == Some((p.0 as int, p.1)) && pos < p.0
                && p.0 <= n,
            None => spec_version(s@, pos as int) is None,
        },
{
    let e = digits_end(s, n, pos);
    if e == pos {
        return None;
    }
    proof {
        lemma_digits_end(s@, pos as int);
    }
    match fold_digits(s, n, pos, e, 0) {
        None => {
            proof {
                lemma_fold_lower_bound(0, s@.subrange(pos as int, e as int));
            }
            None
        },
        Some(v) => {
            if v <= 0xffff_ffff {
                Some((e, v as u32))
            } else {
                None
            }
        },
    }
}

/// The whole decode: the `osu file format v` header with its version number
/// and line terminator, optional whitespace, then the order-independent
/// section matching; the assembled document ignores trailing input.
pub open spec fn spec_parse_osu(s: Seq<char>) -> Result<OsuView, OsuError> {
    let tag = "osu file format v"@;
    if !spec_has_tag(s, 0, tag) {
        Err(OsuError::Syntax)
    } else {
        match spec_version(s, tag.len() as int) {
            None => Err(OsuError::Syntax),
            Some((e, ver)) => {
                if !crlf_at(s, e) {
                    Err(OsuError::Syntax)
                } else {
                    let p = spec_skip_multispace(s, e + 2);
                    match spec_sections(s, p, spec_empty_parts()) {
                        Err(er) => Err(er),
                        Ok(st) => Ok(
                            OsuView {
                                version: ver,
                                general: st.general->Some_0,
                                editor: st.editor->Some_0,
                                metadata: st.metadata->Some_0,
                                difficulty: st.difficulty->Some_0,
                                events: st.events->Some_0,
                                timing_points: st.timing_points->Some_0,
                                colours: st.colours->Some_0,
                                hit_objects: st.hit_objects->Some_0,
                            },
                        ),
                    }
                }
            },
        }
    }
}

/// Decodes a whole document.  The result is exactly what the spec-level
/// grammar [`spec_parse_osu`] assigns to the input, both on success and on
/// failure.
pub fn parse_osu(s: &str) -> (r: Result<Osu, OsuError>)
    ensures
        match r {
            Ok(doc) => spec_parse_osu(s@) == Ok::<OsuView, OsuError>(doc@),
            Err(e) => spec_parse_osu(s@) == Err::<OsuView, OsuError>(e),
        },
{
    let n = s.unicode_len();
    if !has_tag(s, n, 0, "osu file format v") {
        return Err(OsuError::Syntax);
    }
    let tl = "osu file format v".unicode_len();
    let (e, ver) = match version_number(s, n, tl) {
        None => {
            return Err(OsuError::Syntax);
        },
        Some(x) => x,
    };
    if !is_crlf_at(s, n, e) {
        return Err(OsuError::Syntax);
    }
    let p = skip_multispace(s, n, e + 2);
    let parts = DocParts {
        general: None,
        editor: None,
        metadata: None,
        difficulty: None,
        events: None,
        timing_points: None,
        colours: None,
        hit_objects: None,
    };
    let out = match sections_loop(s, n, p, parts) {
        Err(er) => {
            return Err(er);
        },
        Ok(out) => out,
    };
    match (out.general, out.editor, out.metadata, out.difficulty, out.events, out.timing_points,
        out.colours, out.hit_objects) {
        (
            Some(general),
            Some(editor),
            Some(metadata),
            Some(difficulty),
            Some(events),
            Some(timing_points),
            Some(colours),
            Some(hit_objects),
        ) => Ok(
            Osu {
                version: ver,
                general,
                editor,
                metadata,
                difficulty,
                events,
                timing_points,
                colours,
                hit_objects,
            },
        ),
        _ => {
            proof {
                assert(false);
            }
            Err(OsuError::Syntax)
        },
    }
}

} // verus!
