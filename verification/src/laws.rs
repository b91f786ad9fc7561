//! Laws of the decoder: properties that hold of every input, stated over the
//! spec-level grammar and proved once and for all.

use vstd::prelude::*;

use crate::convert::spec_mode_from_index;
use crate::scan::crlf_at;
use crate::scan::spec_comma_record;
use crate::scan::spec_find_char;
use crate::scan::spec_find_crlf;
use crate::scan::spec_has_tag;
use crate::scan::spec_kv;
use crate::scan::spec_skip_comments;
use crate::scan::spec_skip_multispace;
use crate::scan::spec_skip_ws;
use crate::sections::OsuError;
use crate::sections::spec_section_colours;
use crate::sections::spec_section_difficulty;
use crate::sections::spec_section_editor;
use crate::sections::spec_section_events;
use crate::sections::spec_section_general;
use crate::sections::spec_section_hit_objects;
use crate::sections::spec_section_metadata;
use crate::sections::spec_section_timing_points;
use crate::sections::spec_kv_pairs;
use crate::spec_complete;
use crate::spec_empty_parts;
use crate::spec_parse_osu;
use crate::spec_sections;
use crate::spec_step;
use crate::spec_version;
use crate::PartialDoc;
use crate::convert::spec_mode_index;
use crate::convert::spec_parse_bool;
use crate::convert::Mode;
use crate::fields::spec_bool_field;
use crate::fields::spec_bool_or_false;
use crate::fields::spec_dec_at;
use crate::fields::spec_lookup;
use crate::fields::spec_u32_at;
use crate::hitobj::spec_hit_obj_of;
use crate::types::Difficulty;
use crate::types::EditorView;
use crate::types::EventsView;
use crate::types::GeneralView;
use crate::types::MetadataView;
use crate::types::spec_general_default;
use crate::types::spec_general_of;
use crate::types::spec_hit_obj_default;
use crate::types::Colour;
use crate::types::HitObj;
use crate::types::TimingPoint;

verus! {

/// Law: the two boolean tokens convert exactly (`1` to true, `0` to false),
/// and a token that converts as neither reads as the declared default false
/// instead of propagating a failure.
pub proof fn lemma_bool_tokens()
    ensures
        spec_parse_bool(seq!['1']) == Some(true),
        spec_parse_bool(seq!['0']) == Some(false),
        forall|t: Seq<char>| spec_parse_bool(t) is None ==> !spec_bool_or_false(t),
{
}

/// Law: a boolean field of a populated section is true exactly when its key
/// is present with the token `1`; every other token, and a missing key,
/// leave the field at its default false, never a failure.
pub proof fn lemma_bool_field_tokens(pairs: Seq<(Seq<char>, Seq<char>)>, key: Seq<char>)
    ensures
        spec_bool_field(pairs, key) <==> spec_lookup(pairs, key) == Some(seq!['1']),
{
    match spec_lookup(pairs, key) {
        None => {},
        Some(t) => {
            if t.len() == 1 && t[0] == '1' {
                assert(t =~= seq!['1']);
            } else {
                assert(t != seq!['1']) by {
                    if t == seq!['1'] {
                        assert(t.len() == 1 && t[0] == '1');
                    }
                }
            }
        },
    }
}

/// Law: for every integer zero to three, mode conversion round-trips: the
/// denoted variant is a named one and its index is the integer again.
pub proof fn lemma_mode_round_trip(i: int)
    requires
        0 <= i <= 3,
    ensures
        spec_mode_index(spec_mode_from_index(i)) == i,
        spec_mode_from_index(i) != Mode::Wrong,
{
}

/// Law: every integer outside zero to three denotes `Wrong`.
pub proof fn lemma_mode_other_integers_wrong(i: int)
    requires
        !(0 <= i <= 3),
    ensures
        spec_mode_from_index(i) == Mode::Wrong,
{
}

/// Law: a General section whose pairs lack the `Mode` key reads as a section
/// whose mode is the default `Wrong`; the missing key does not fail the
/// populate.
pub proof fn lemma_missing_mode_defaults(pairs: Seq<(Seq<char>, Seq<char>)>)
    requires
        spec_lookup(pairs, "Mode"@) is None,
    ensures
        spec_general_of(pairs).mode == Mode::Wrong,
{
}

/// Law: populating the General section from no pairs at all yields exactly
/// the all-default section.
pub proof fn lemma_general_default_from_nothing()
    ensures
        spec_general_of(seq![]) == spec_general_default(),
{
}

/// Law: hit-object classification is by the type bitmask, bits tested in
/// fixed priority.  Bit 0 selects the circle variant populated from fields
/// 0 to 4; else bit 1 the slider variant with the duration from field 7;
/// else bit 3 the spinner variant with the end time from field 5; a record
/// with none of those bits reads as the zero-valued object.
pub proof fn lemma_hit_obj_variants(fs: Seq<Seq<char>>)
    requires
        fs.len() >= 8,
    ensures
        ({
            let ty = spec_u32_at(fs, 3);
            &&& (ty & 1 != 0 ==> spec_hit_obj_of(fs) == Some(
                HitObj {
                    x: spec_u32_at(fs, 0),
                    y: spec_u32_at(fs, 1),
                    time: spec_u32_at(fs, 2),
                    ty,
                    hit_sound: spec_u32_at(fs, 4),
                    time_len: crate::convert::spec_decimal_zero(),
                    time_end: 0,
                },
            ))
            &&& (ty & 1 == 0 && ty & 2 != 0 ==> spec_hit_obj_of(fs) == Some(
                HitObj {
                    x: spec_u32_at(fs, 0),
                    y: spec_u32_at(fs, 1),
                    time: spec_u32_at(fs, 2),
                    ty,
                    hit_sound: spec_u32_at(fs, 4),
                    time_len: spec_dec_at(fs, 7),
                    time_end: 0,
                },
            ))
            &&& (ty & 1 == 0 && ty & 2 == 0 && ty & 8 != 0 ==> spec_hit_obj_of(fs) == Some(
                HitObj {
                    x: spec_u32_at(fs, 0),
                    y: spec_u32_at(fs, 1),
                    time: spec_u32_at(fs, 2),
                    ty,
                    hit_sound: spec_u32_at(fs, 4),
                    time_len: crate::convert::spec_decimal_zero(),
                    time_end: spec_u32_at(fs, 5),
                },
            ))
            &&& (ty & 1 == 0 && ty & 2 == 0 && ty & 8 == 0 ==> spec_hit_obj_of(fs) == Some(
                spec_hit_obj_default(),
            ))
        }),
{
}

/// The named section decoder matches at `pos`.
pub open spec fn spec_matches_general(s: Seq<char>, pos: int) -> bool {
    spec_section_general(s, pos) matches Ok(Some(_))
}

/// The named section decoder matches at `pos`.
pub open spec fn spec_matches_editor(s: Seq<char>, pos: int) -> bool {
    spec_section_editor(s, pos) matches Ok(Some(_))
}

/// The named section decoder matches at `pos`.
pub open spec fn spec_matches_metadata(s: Seq<char>, pos: int) -> bool {
    spec_section_metadata(s, pos) matches Ok(Some(_))
}

/// The named section decoder matches at `pos`.
pub open spec fn spec_matches_difficulty(s: Seq<char>, pos: int) -> bool {
    spec_section_difficulty(s, pos) matches Ok(Some(_))
}

/// The named section decoder matches at `pos`.
pub open spec fn spec_matches_events(s: Seq<char>, pos: int) -> bool {
    spec_section_events(s, pos) matches Ok(Some(_))
}

/// The named section decoder matches at `pos`.
pub open spec fn spec_matches_timing_points(s: Seq<char>, pos: int) -> bool {
    spec_section_timing_points(s, pos) matches Ok(Some(_))
}

/// The named section decoder matches at `pos`.
pub open spec fn spec_matches_colours(s: Seq<char>, pos: int) -> bool {
    spec_section_colours(s, pos) matches Ok(Some(_))
}

/// The named section decoder matches at `pos`.
pub open spec fn spec_matches_hit_objects(s: Seq<char>, pos: int) -> bool {
    spec_section_hit_objects(s, pos) matches Ok(Some(_))
}

/// One for true, zero for false.
pub open spec fn spec_bool_to_int(b: bool) -> int {
    if b {
        1
    } else {
        0
    }
}

/// How many section decoders match at `pos`.
pub open spec fn spec_match_count(s: Seq<char>, pos: int) -> int {
    spec_bool_to_int(spec_matches_general(s, pos)) + spec_bool_to_int(spec_matches_editor(s, pos))
        + spec_bool_to_int(spec_matches_metadata(s, pos)) + spec_bool_to_int(
        spec_matches_difficulty(s, pos),
    ) + spec_bool_to_int(spec_matches_events(s, pos)) + spec_bool_to_int(
        spec_matches_timing_points(s, pos),
    ) + spec_bool_to_int(spec_matches_colours(s, pos)) + spec_bool_to_int(
        spec_matches_hit_objects(s, pos),
    )
}

/// A section decoder matches only where its own header tag stands.
pub proof fn lemma_match_needs_header(s: Seq<char>, pos: int)
    ensures
        spec_matches_general(s, pos) ==> spec_has_tag(s, pos, "[General]"@),
        spec_matches_editor(s, pos) ==> spec_has_tag(s, pos, "[Editor]"@),
        spec_matches_metadata(s, pos) ==> spec_has_tag(s, pos, "[Metadata]"@),
        spec_matches_difficulty(s, pos) ==> spec_has_tag(s, pos, "[Difficulty]"@),
        spec_matches_events(s, pos) ==> spec_has_tag(s, pos, "[Events]"@),
        spec_matches_timing_points(s, pos) ==> spec_has_tag(s, pos, "[TimingPoints]"@),
        spec_matches_colours(s, pos) ==> spec_has_tag(s, pos, "[Colours]"@),
        spec_matches_hit_objects(s, pos) ==> spec_has_tag(s, pos, "[HitObjects]"@),
{
}

/// The second and third characters of each section header discriminate it
/// from every other header.
proof fn lemma_tag_chars(s: Seq<char>, pos: int)
    ensures
        spec_has_tag(s, pos, "[General]"@) ==> s[pos] == '[' && s[pos + 1] == 'G' && s[pos + 2]
            == 'e',
        spec_has_tag(s, pos, "[Editor]"@) ==> s[pos] == '[' && s[pos + 1] == 'E' && s[pos + 2]
            == 'd',
        spec_has_tag(s, pos, "[Metadata]"@) ==> s[pos] == '[' && s[pos + 1] == 'M' && s[pos + 2]
            == 'e',
        spec_has_tag(s, pos, "[Difficulty]"@) ==> s[pos] == '[' && s[pos + 1] == 'D' && s[pos + 2]
            == 'i',
        spec_has_tag(s, pos, "[Events]"@) ==> s[pos] == '[' && s[pos + 1] == 'E' && s[pos + 2]
            == 'v',
        spec_has_tag(s, pos, "[TimingPoints]"@) ==> s[pos] == '[' && s[pos + 1] == 'T' && s[pos
            + 2] == 'i',
        spec_has_tag(s, pos, "[Colours]"@) ==> s[pos] == '[' && s[pos + 1] == 'C' && s[pos + 2]
            == 'o',
        spec_has_tag(s, pos, "[HitObjects]"@) ==> s[pos] == '[' && s[pos + 1] == 'H' && s[pos + 2]
            == 'i',
{
    reveal_strlit("[General]");
    reveal_strlit("[Editor]");
    reveal_strlit("[Metadata]");
    reveal_strlit("[Difficulty]");
    reveal_strlit("[Events]");
    reveal_strlit("[TimingPoints]");
    reveal_strlit("[Colours]");
    reveal_strlit("[HitObjects]");
    if spec_has_tag(s, pos, "[General]"@) {
        assert(s.subrange(pos, pos + 9)[0] == s[pos + 0]);
        assert(s.subrange(pos, pos + 9)[1] == s[pos + 1]);
        assert(s.subrange(pos, pos + 9)[2] == s[pos + 2]);
    }
    if spec_has_tag(s, pos, "[Editor]"@) {
        assert(s.subrange(pos, pos + 8)[0] == s[pos + 0]);
        assert(s.subrange(pos, pos + 8)[1] == s[pos + 1]);
        assert(s.subrange(pos, pos + 8)[2] == s[pos + 2]);
    }
    if spec_has_tag(s, pos, "[Metadata]"@) {
        assert(s.subrange(pos, pos + 10)[0] == s[pos + 0]);
        assert(s.subrange(pos, pos + 10)[1] == s[pos + 1]);
        assert(s.subrange(pos, pos + 10)[2] == s[pos + 2]);
    }
    if spec_has_tag(s, pos, "[Difficulty]"@) {
        assert(s.subrange(pos, pos + 12)[0] == s[pos + 0]);
        assert(s.subrange(pos, pos + 12)[1] == s[pos + 1]);
        assert(s.subrange(pos, pos + 12)[2] == s[pos + 2]);
    }
    if spec_has_tag(s, pos, "[Events]"@) {
        assert(s.subrange(pos, pos + 8)[0] == s[pos + 0]);
        assert(s.subrange(pos, pos + 8)[1] == s[pos + 1]);
        assert(s.subrange(pos, pos + 8)[2] == s[pos + 2]);
    }
    if spec_has_tag(s, pos, "[TimingPoints]"@) {
        assert(s.subrange(pos, pos + 14)[0] == s[pos + 0]);
        assert(s.subrange(pos, pos + 14)[1] == s[pos + 1]);
        assert(s.subrange(pos, pos + 14)[2] == s[pos + 2]);
    }
    if spec_has_tag(s, pos, "[Colours]"@) {
        assert(s.subrange(pos, pos + 9)[0] == s[pos + 0]);
        assert(s.subrange(pos, pos + 9)[1] == s[pos + 1]);
        assert(s.subrange(pos, pos + 9)[2] == s[pos + 2]);
    }
    if spec_has_tag(s, pos, "[HitObjects]"@) {
        assert(s.subrange(pos, pos + 12)[0] == s[pos + 0]);
        assert(s.subrange(pos, pos + 12)[1] == s[pos + 1]);
        assert(s.subrange(pos, pos + 12)[2] == s[pos + 2]);
    }
}

/// Law (section order independence, matching step): at any position of any
/// input at most one section decoder matches, because the eight header tags
/// exclude one another.  The assembler's fixed candidate order therefore
/// cannot influence which section consumes the input at a position.
pub proof fn lemma_at_most_one_section_matches(s: Seq<char>, pos: int)
    ensures
        spec_match_count(s, pos) <= 1,
{
    lemma_match_needs_header(s, pos);
    lemma_tag_chars(s, pos);
}

/// One assembly step never changes a slot that is already filled.
proof fn lemma_step_fills_one(s: Seq<char>, pos: int, st: PartialDoc)
    ensures
        match spec_step(s, pos, st) {
            Ok(Some((p, st2))) => {
                &&& (st.general is Some ==> st2.general == st.general)
                &&& (st.editor is Some ==> st2.editor == st.editor)
                &&& (st.metadata is Some ==> st2.metadata == st.metadata)
                &&& (st.difficulty is Some ==> st2.difficulty == st.difficulty)
                &&& (st.events is Some ==> st2.events == st.events)
                &&& (st.timing_points is Some ==> st2.timing_points == st.timing_points)
                &&& (st.colours is Some ==> st2.colours == st.colours)
                &&& (st.hit_objects is Some ==> st2.hit_objects == st.hit_objects)
            },
            _ => true,
        },
{
}

/// Law (section order independence, assembly): a section slot, once filled,
/// is never changed by the rest of the assembly.  Together with
/// [`lemma_at_most_one_section_matches`] this says that each section of a
/// decoded document is the value produced by its own decoder at the unique
/// position where its header matched, whatever order the sections stand in.
pub proof fn lemma_sections_fill_once(s: Seq<char>, pos: int, st: PartialDoc)
    ensures
        match spec_sections(s, pos, st) {
            Ok(out) => {
                &&& (st.general is Some ==> out.general == st.general)
                &&& (st.editor is Some ==> out.editor == st.editor)
                &&& (st.metadata is Some ==> out.metadata == st.metadata)
                &&& (st.difficulty is Some ==> out.difficulty == st.difficulty)
                &&& (st.events is Some ==> out.events == st.events)
                &&& (st.timing_points is Some ==> out.timing_points == st.timing_points)
                &&& (st.colours is Some ==> out.colours == st.colours)
                &&& (st.hit_objects is Some ==> out.hit_objects == st.hit_objects)
            },
            Err(_) => true,
        },
    decreases s.len() - pos,
{
    if !spec_complete(st) {
        lemma_step_fills_one(s, pos, st);
        let ghost r = spec_step(s, pos, st);
        match r {
            Ok(Some((p, st2))) => {
                if pos < p <= s.len() {
                    lemma_sections_fill_once(s, p, st2);
                }
            },
            _ => {},
        }
    }
}

/// One assembly step cannot fill the Difficulty slot where its header is
/// absent.
proof fn lemma_step_keeps_difficulty_missing(s: Seq<char>, pos: int, st: PartialDoc)
    requires
        st.difficulty is None,
        !spec_has_tag(s, pos, "[Difficulty]"@),
    ensures
        match spec_step(s, pos, st) {
            Ok(Some((p, st2))) => st2.difficulty is None,
            _ => true,
        },
{
}

proof fn lemma_sections_need_difficulty(s: Seq<char>, pos: int, st: PartialDoc)
    requires
        st.difficulty is None,
        forall|i: int| !(#[trigger] spec_has_tag(s, i, "[Difficulty]"@)),
    ensures
        spec_sections(s, pos, st) is Err,
    decreases s.len() - pos,
{
    lemma_step_keeps_difficulty_missing(s, pos, st);
    let ghost r = spec_step(s, pos, st);
    match r {
        Ok(Some((p, st2))) => {
            if pos < p <= s.len() {
                lemma_sections_need_difficulty(s, p, st2);
            }
        },
        _ => {},
    }
}

/// Law (missing-section failure): an input that nowhere carries the
/// `[Difficulty]` header cannot decode to a document; assembly requires
/// every declared section to match, so the decode fails instead of yielding
/// a partial document.
pub proof fn lemma_missing_difficulty_fails(s: Seq<char>)
    requires
        forall|i: int| !(#[trigger] spec_has_tag(s, i, "[Difficulty]"@)),
    ensures
        spec_parse_osu(s) is Err,
{
    let tag = "osu file format v"@;
    if spec_has_tag(s, 0, tag) {
        match spec_version(s, tag.len() as int) {
            None => {},
            Some((e, ver)) => {
                if crate::scan::crlf_at(s, e) {
                    let p = crate::scan::spec_skip_multispace(s, e + 2);
                    lemma_sections_need_difficulty(s, p, spec_empty_parts());
                }
            },
        }
    }
}

// What follows builds up to the order-independence law at the end of this
// file.  A "replay" lemma says of one scanning or decoding function that a
// successful run depends only on the characters it visited: on any input
// that carries the same characters at another position, the run succeeds
// again with the same result, shifted.  The law then moves each section
// block of a decoded document to its reversed position and replays it.

/// The `w` characters of `s1` at `pos1` equal those of `s2` at `pos2`.
pub open spec fn spec_agree(s1: Seq<char>, pos1: int, s2: Seq<char>, pos2: int, w: int) -> bool {
    &&& 0 <= pos1
    &&& 0 <= pos2
    &&& 0 <= w
    &&& pos1 + w <= s1.len()
    &&& pos2 + w <= s2.len()
    &&& forall|k: int| 0 <= k < w ==> #[trigger] s1[pos1 + k] == s2[pos2 + k]
}

proof fn agree_shift(s1: Seq<char>, pos1: int, s2: Seq<char>, pos2: int, w: int, d: int)
    requires
        spec_agree(s1, pos1, s2, pos2, w),
        0 <= d <= w,
    ensures
        spec_agree(s1, pos1 + d, s2, pos2 + d, w - d),
{
    assert forall|k: int| 0 <= k < w - d implies #[trigger] s1[(pos1 + d) + k] == s2[(pos2 + d)
        + k] by {
        assert(s1[pos1 + (d + k)] == s2[pos2 + (d + k)]);
    }
}

proof fn find_crlf_replay(s1: Seq<char>, pos1: int, s2: Seq<char>, pos2: int, w: int)
    requires
        spec_agree(s1, pos1, s2, pos2, w),
        spec_find_crlf(s1, pos1) matches Some(e) && e + 2 <= pos1 + w,
    ensures
        spec_find_crlf(s2, pos2) == Some(spec_find_crlf(s1, pos1)->0 + pos2 - pos1),
    decreases w,
{
    crate::scan::lemma_find_crlf(s1, pos1);
    let e = spec_find_crlf(s1, pos1)->0;
    if s1[pos1] == '\r' && s1[pos1 + 1] == '\n' {
        assert(s1[pos1 + 0] == s2[pos2 + 0]);
        assert(s1[pos1 + 1] == s2[pos2 + 1]);
    } else {
        assert(s1[pos1 + 0] == s2[pos2 + 0]);
        assert(s1[pos1 + 1] == s2[pos2 + 1]);
        agree_shift(s1, pos1, s2, pos2, w, 1);
        find_crlf_replay(s1, pos1 + 1, s2, pos2 + 1, w - 1);
    }
}

proof fn find_char_replay(s1: Seq<char>, pos1: int, s2: Seq<char>, pos2: int, w: int, c: char)
    requires
        spec_agree(s1, pos1, s2, pos2, w),
        spec_find_char(s1, pos1, c) matches Some(i) && i < pos1 + w,
    ensures
        spec_find_char(s2, pos2, c) == Some(spec_find_char(s1, pos1, c)->0 + pos2 - pos1),
    decreases w,
{
    crate::scan::lemma_find_char(s1, pos1, c);
    if s1[pos1] == c {
        assert(s1[pos1 + 0] == s2[pos2 + 0]);
    } else {
        assert(s1[pos1 + 0] == s2[pos2 + 0]);
        agree_shift(s1, pos1, s2, pos2, w, 1);
        find_char_replay(s1, pos1 + 1, s2, pos2 + 1, w - 1, c);
    }
}

proof fn skip_ws_replay(s1: Seq<char>, pos1: int, s2: Seq<char>, pos2: int, w: int, end1: int)
    requires
        spec_agree(s1, pos1, s2, pos2, w),
        pos1 <= end1 <= pos1 + w,
    ensures
        spec_skip_ws(s2, pos2, end1 + pos2 - pos1) == spec_skip_ws(s1, pos1, end1) + pos2 - pos1,
    decreases w,
{
    crate::scan::lemma_skip_ws(s1, pos1, end1);
    let end2 = end1 + pos2 - pos1;
    if pos1 < end1 && pos1 < s1.len() && (s1[pos1] == ' ' || s1[pos1] == '\t') {
        assert(s1[pos1 + 0] == s2[pos2 + 0]);
        agree_shift(s1, pos1, s2, pos2, w, 1);
        skip_ws_replay(s1, pos1 + 1, s2, pos2 + 1, w - 1, end1);
    } else {
        if pos1 < end1 {
            assert(s1[pos1 + 0] == s2[pos2 + 0]);
        }
    }
}

/// Replay of the whitespace skipper, where the stop position and its
/// stopping character both lie inside the agreed window.
proof fn skip_multispace_replay(s1: Seq<char>, pos1: int, s2: Seq<char>, pos2: int, w: int)
    requires
        spec_agree(s1, pos1, s2, pos2, w),
        spec_skip_multispace(s1, pos1) < pos1 + w,
    ensures
        spec_skip_multispace(s2, pos2) == spec_skip_multispace(s1, pos1) + pos2 - pos1,
    decreases w,
{
    crate::scan::lemma_skip_multispace(s1, pos1);
    if 0 <= pos1 && pos1 < s1.len() && crate::scan::is_multispace(s1[pos1]) {
        assert(s1[pos1 + 0] == s2[pos2 + 0]);
        agree_shift(s1, pos1, s2, pos2, w, 1);
        skip_multispace_replay(s1, pos1 + 1, s2, pos2 + 1, w - 1);
    } else {
        assert(s1[pos1 + 0] == s2[pos2 + 0]);
    }
}

proof fn has_tag_replay(s1: Seq<char>, pos1: int, s2: Seq<char>, pos2: int, w: int, tag: Seq<char>)
    requires
        spec_agree(s1, pos1, s2, pos2, w),
        spec_has_tag(s1, pos1, tag),
        tag.len() <= w,
    ensures
        spec_has_tag(s2, pos2, tag),
{
    assert forall|k: int| 0 <= k < tag.len() implies s2.subrange(
        pos2,
        pos2 + tag.len() as int,
    )[k] == tag[k] by {
        assert(s1[pos1 + k] == s2[pos2 + k]);
        assert(s1.subrange(pos1, pos1 + tag.len() as int)[k] == tag[k]);
    }
    assert(s2.subrange(pos2, pos2 + tag.len() as int) =~= tag);
}

proof fn header_replay(s1: Seq<char>, pos1: int, s2: Seq<char>, pos2: int, w: int, tag: Seq<char>)
    requires
        spec_agree(s1, pos1, s2, pos2, w),
        crate::sections::spec_header(s1, pos1, tag) matches Ok(Some(p)) && p <= pos1 + w,
    ensures
        crate::sections::spec_header(s2, pos2, tag) == Ok::<Option<int>, OsuError>(
            Some(crate::sections::spec_header(s1, pos1, tag)->Ok_0->Some_0 + pos2 - pos1),
        ),
{
    let tl = tag.len() as int;
    has_tag_replay(s1, pos1, s2, pos2, w, tag);
    assert(s1[pos1 + tl] == s2[pos2 + tl]);
    assert(s1[pos1 + (tl + 1)] == s2[pos2 + (tl + 1)]);
}

proof fn kv_replay(s1: Seq<char>, pos1: int, s2: Seq<char>, pos2: int, w: int)
    requires
        spec_agree(s1, pos1, s2, pos2, w),
        spec_kv(s1, pos1) matches Some((p, k, v)) && p <= pos1 + w,
    ensures
        ({
            let (p, k, v) = spec_kv(s1, pos1)->0;
            spec_kv(s2, pos2) == Some((p + pos2 - pos1, k, v))
        }),
{
    let (p, k, v) = spec_kv(s1, pos1)->0;
    crate::scan::lemma_find_crlf(s1, pos1);
    crate::scan::lemma_find_char(s1, pos1, ':');
    let e1 = spec_find_crlf(s1, pos1)->0;
    let c1 = spec_find_char(s1, pos1, ':')->0;
    find_crlf_replay(s1, pos1, s2, pos2, w);
    find_char_replay(s1, pos1, s2, pos2, w, ':');
    let d = pos2 - pos1;
    agree_shift(s1, pos1, s2, pos2, w, c1 + 1 - pos1);
    skip_ws_replay(s1, c1 + 1, s2, c1 + 1 + d, w - (c1 + 1 - pos1), e1);
    let v0 = spec_skip_ws(s1, c1 + 1, e1);
    crate::scan::lemma_skip_ws(s1, c1 + 1, e1);
    assert forall|j: int| 0 <= j < c1 - pos1 implies s2.subrange(pos2, c1 + d)[j] == k[j] by {
        assert(s1[pos1 + j] == s2[pos2 + j]);
    }
    assert(s2.subrange(pos2, c1 + d) =~= k);
    assert forall|j: int| 0 <= j < e1 - v0 implies s2.subrange(v0 + d, e1 + d)[j] == v[j] by {
        assert(s1[pos1 + ((v0 - pos1) + j)] == s2[pos2 + ((v0 - pos1) + j)]);
        assert(s1[v0 + j] == s2[(v0 + d) + j]);
    }
    assert(s2.subrange(v0 + d, e1 + d) =~= v);
}

proof fn comma_record_replay(s1: Seq<char>, pos1: int, s2: Seq<char>, pos2: int, w: int)
    requires
        spec_agree(s1, pos1, s2, pos2, w),
        spec_comma_record(s1, pos1) matches Some((p, fs)) && p <= pos1 + w,
    ensures
        ({
            let (p, fs) = spec_comma_record(s1, pos1)->0;
            spec_comma_record(s2, pos2) == Some((p + pos2 - pos1, fs))
        }),
{
    crate::scan::lemma_find_crlf(s1, pos1);
    let e1 = spec_find_crlf(s1, pos1)->0;
    find_crlf_replay(s1, pos1, s2, pos2, w);
    let d = pos2 - pos1;
    assert forall|j: int| 0 <= j < e1 - pos1 implies s2.subrange(pos2, e1 + d)[j] == s1.subrange(
        pos1,
        e1,
    )[j] by {
        assert(s1[pos1 + j] == s2[pos2 + j]);
    }
    assert(s2.subrange(pos2, e1 + d) =~= s1.subrange(pos1, e1));
}

proof fn skip_comments_replay(s1: Seq<char>, pos1: int, s2: Seq<char>, pos2: int, w: int)
    requires
        spec_agree(s1, pos1, s2, pos2, w),
        spec_find_crlf(s1, spec_skip_comments(s1, pos1)) matches Some(e) && e + 2 <= pos1 + w,
    ensures
        spec_skip_comments(s2, pos2) == spec_skip_comments(s1, pos1) + pos2 - pos1,
    decreases w,
{
    let p1 = spec_skip_comments(s1, pos1);
    crate::scan::lemma_skip_comments(s1, pos1);
    crate::scan::lemma_find_crlf(s1, p1);
    let ee = spec_find_crlf(s1, p1)->0;
    if 0 <= pos1 && pos1 + 2 <= s1.len() && s1[pos1] == '/' && s1[pos1 + 1] == '/' {
        match spec_find_crlf(s1, pos1) {
            None => {
                // Then the skip stops at `pos1`, yet a terminator exists at
                // or after `p1 == pos1`: contradiction.
                assert(false);
            },
            Some(e0) => {
                crate::scan::lemma_find_crlf(s1, pos1);
                if pos1 <= e0 && e0 + 2 <= s1.len() {
                    crate::scan::lemma_skip_comments(s1, e0 + 2);
                    // The terminator of the first comment line lies before
                    // the final stop, so it lies inside the window.
                    find_crlf_replay(s1, pos1, s2, pos2, w);
                    assert(s1[pos1 + 0] == s2[pos2 + 0]);
                    assert(s1[pos1 + 1] == s2[pos2 + 1]);
                    agree_shift(s1, pos1, s2, pos2, w, e0 + 2 - pos1);
                    skip_comments_replay(s1, e0 + 2, s2, e0 + 2 + (pos2 - pos1), w - (e0 + 2
                        - pos1));
                } else {
                    assert(false);
                }
            },
        }
    } else {
        // The skip stops immediately; the two characters it inspected agree.
        if pos1 + 2 <= s1.len() {
            assert(s1[pos1 + 0] == s2[pos2 + 0]);
            assert(s1[pos1 + 1] == s2[pos2 + 1]);
        }
    }
}

proof fn lemma_kv_pairs_bounds(s: Seq<char>, pos: int)
    ensures
        match spec_kv_pairs(s, pos) {
            Ok((q, _)) => pos < q <= s.len(),
            Err(_) => true,
        },
    decreases s.len() - pos,
{
    if crlf_at(s, pos) {
    } else {
        match spec_kv(s, pos) {
            None => {},
            Some((p, k, v)) => {
                if pos < p <= s.len() {
                    lemma_kv_pairs_bounds(s, p);
                }
            },
        }
    }
}

proof fn kv_pairs_replay(s1: Seq<char>, pos1: int, s2: Seq<char>, pos2: int, w: int)
    requires
        spec_agree(s1, pos1, s2, pos2, w),
        spec_kv_pairs(s1, pos1) matches Ok((q, ps)) && q <= pos1 + w,
    ensures
        ({
            let (q, ps) = spec_kv_pairs(s1, pos1)->Ok_0;
            spec_kv_pairs(s2, pos2) == Ok::<(int, Seq<(Seq<char>, Seq<char>)>), OsuError>(
                (q + pos2 - pos1, ps),
            )
        }),
    decreases w,
{
    let d = pos2 - pos1;
    let (q, ps) = spec_kv_pairs(s1, pos1)->Ok_0;
    if crlf_at(s1, pos1) {
        assert(s1[pos1 + 0] == s2[pos2 + 0]);
        assert(s1[pos1 + 1] == s2[pos2 + 1]);
        assert(crlf_at(s2, pos2));
    } else {
        match spec_kv(s1, pos1) {
            None => {
                assert(false);
            },
            Some((p, k, v)) => {
                assert(pos1 < p <= s1.len());
                lemma_kv_pairs_bounds(s1, p);
                kv_replay(s1, pos1, s2, pos2, w);
                assert(s1[pos1 + 0] == s2[pos2 + 0]);
                assert(s1[pos1 + 1] == s2[pos2 + 1]);
                assert(!crlf_at(s2, pos2));
                agree_shift(s1, pos1, s2, pos2, w, p - pos1);
                kv_pairs_replay(s1, p, s2, p + d, w - (p - pos1));
            },
        }
    }
}

proof fn lemma_tp_records_bounds(s: Seq<char>, pos: int)
    ensures
        match crate::sections::spec_tp_records(s, pos) {
            Ok((q, _)) => pos < q <= s.len(),
            Err(_) => true,
        },
    decreases s.len() - pos,
{
    if crlf_at(s, pos) {
    } else {
        match spec_comma_record(s, pos) {
            None => {},
            Some((p, fs)) => {
                if pos < p <= s.len() {
                    lemma_tp_records_bounds(s, p);
                }
            },
        }
    }
}

proof fn tp_records_replay(s1: Seq<char>, pos1: int, s2: Seq<char>, pos2: int, w: int)
    requires
        spec_agree(s1, pos1, s2, pos2, w),
        crate::sections::spec_tp_records(s1, pos1) matches Ok((q, tps)) && q <= pos1 + w,
    ensures
        ({
            let (q, tps) = crate::sections::spec_tp_records(s1, pos1)->Ok_0;
            crate::sections::spec_tp_records(s2, pos2) == Ok::<(int, Seq<TimingPoint>), OsuError>(
                (q + pos2 - pos1, tps),
            )
        }),
    decreases w,
{
    let d = pos2 - pos1;
    if crlf_at(s1, pos1) {
        assert(s1[pos1 + 0] == s2[pos2 + 0]);
        assert(s1[pos1 + 1] == s2[pos2 + 1]);
        assert(crlf_at(s2, pos2));
    } else {
        match spec_comma_record(s1, pos1) {
            None => {
                assert(false);
            },
            Some((p, fs)) => {
                assert(pos1 < p <= s1.len());
                lemma_tp_records_bounds(s1, p);
                comma_record_replay(s1, pos1, s2, pos2, w);
                assert(s1[pos1 + 0] == s2[pos2 + 0]);
                assert(s1[pos1 + 1] == s2[pos2 + 1]);
                assert(!crlf_at(s2, pos2));
                agree_shift(s1, pos1, s2, pos2, w, p - pos1);
                tp_records_replay(s1, p, s2, p + d, w - (p - pos1));
            },
        }
    }
}

proof fn lemma_colour_records_bounds(s: Seq<char>, pos: int)
    ensures
        match crate::sections::spec_colour_records(s, pos) {
            Ok((q, _)) => pos < q <= s.len(),
            Err(_) => true,
        },
    decreases s.len() - pos,
{
    if crlf_at(s, pos) {
    } else {
        match spec_kv(s, pos) {
            None => {},
            Some((p, k, v)) => {
                if pos < p <= s.len() {
                    lemma_colour_records_bounds(s, p);
                }
            },
        }
    }
}

proof fn colour_records_replay(s1: Seq<char>, pos1: int, s2: Seq<char>, pos2: int, w: int)
    requires
        spec_agree(s1, pos1, s2, pos2, w),
        crate::sections::spec_colour_records(s1, pos1) matches Ok((q, cs)) && q <= pos1 + w,
    ensures
        ({
            let (q, cs) = crate::sections::spec_colour_records(s1, pos1)->Ok_0;
            crate::sections::spec_colour_records(s2, pos2) == Ok::<(int, Seq<Colour>), OsuError>(
                (q + pos2 - pos1, cs),
            )
        }),
    decreases w,
{
    let d = pos2 - pos1;
    if crlf_at(s1, pos1) {
        assert(s1[pos1 + 0] == s2[pos2 + 0]);
        assert(s1[pos1 + 1] == s2[pos2 + 1]);
        assert(crlf_at(s2, pos2));
    } else {
        match spec_kv(s1, pos1) {
            None => {
                assert(false);
            },
            Some((p, k, v)) => {
                assert(pos1 < p <= s1.len());
                lemma_colour_records_bounds(s1, p);
                kv_replay(s1, pos1, s2, pos2, w);
                assert(s1[pos1 + 0] == s2[pos2 + 0]);
                assert(s1[pos1 + 1] == s2[pos2 + 1]);
                assert(!crlf_at(s2, pos2));
                agree_shift(s1, pos1, s2, pos2, w, p - pos1);
                colour_records_replay(s1, p, s2, p + d, w - (p - pos1));
            },
        }
    }
}

proof fn lemma_hit_records_bounds(s: Seq<char>, pos: int)
    ensures
        match crate::sections::spec_hit_records(s, pos) {
            Ok((q, _)) => pos <= q,
            Err(_) => true,
        },
    decreases s.len() - pos,
{
    if pos >= s.len() || crlf_at(s, pos) || (0 <= pos < s.len() && s[pos] == '[') || spec_find_crlf(
        s,
        pos,
    ) is None {
    } else {
        match spec_comma_record(s, pos) {
            None => {},
            Some((p, fs)) => match spec_hit_obj_of(fs) {
                None => {},
                Some(h) => {
                    if pos < p <= s.len() {
                        lemma_hit_records_bounds(s, p);
                    }
                },
            },
        }
    }
}

proof fn hit_records_replay(s1: Seq<char>, pos1: int, s2: Seq<char>, pos2: int, w: int)
    requires
        spec_agree(s1, pos1, s2, pos2, w),
        crate::sections::spec_hit_records(s1, pos1) matches Ok((q, hs)) && q <= pos1 + w,
        ({
            let end2 = crate::sections::spec_hit_records(s1, pos1)->Ok_0.0 + pos2 - pos1;
            end2 >= s2.len() || crlf_at(s2, end2) || (0 <= end2 < s2.len() && s2[end2] == '[')
                || spec_find_crlf(s2, end2) is None
        }),
    ensures
        ({
            let (q, hs) = crate::sections::spec_hit_records(s1, pos1)->Ok_0;
            crate::sections::spec_hit_records(s2, pos2) == Ok::<(int, Seq<HitObj>), OsuError>(
                (q + pos2 - pos1, hs),
            )
        }),
    decreases w,
{
    let d = pos2 - pos1;
    let (q, hs) = crate::sections::spec_hit_records(s1, pos1)->Ok_0;
    let stop1 = pos1 >= s1.len() || crlf_at(s1, pos1) || (0 <= pos1 < s1.len() && s1[pos1] == '[')
        || spec_find_crlf(s1, pos1) is None;
    if stop1 {
        // The records end right here, so the shifted end is `pos2`, and the
        // third hypothesis says `pos2` is a stop in the second string too.
    } else {
        match spec_comma_record(s1, pos1) {
            None => {
                // Cannot happen: the line has a terminator and is not blank.
                crate::scan::lemma_find_crlf(s1, pos1);
                assert(false);
            },
            Some((p, fs)) => {
                match spec_hit_obj_of(fs) {
                    None => {
                        assert(false);
                    },
                    Some(h) => {
                        assert(pos1 < p <= s1.len());
                        lemma_hit_records_bounds(s1, p);
                        comma_record_replay(s1, pos1, s2, pos2, w);
                        crate::scan::lemma_find_crlf(s1, pos1);
                        assert(s1[pos1 + 0] == s2[pos2 + 0]);
                        assert(s1[pos1 + 1] == s2[pos2 + 1]);
                        assert(!crlf_at(s2, pos2));
                        assert(s2[pos2] != '[');
                        agree_shift(s1, pos1, s2, pos2, w, p - pos1);
                        hit_records_replay(s1, p, s2, p + d, w - (p - pos1));
                    },
                }
            },
        }
    }
}

proof fn lemma_digits_end_low(s: Seq<char>, pos: int)
    ensures
        pos <= crate::spec_digits_end(s, pos),
    decreases s.len() - pos,
{
    if 0 <= pos && pos < s.len() && crate::convert::is_digit(s[pos]) {
        lemma_digits_end_low(s, pos + 1);
    }
}

proof fn digits_end_replay(s1: Seq<char>, pos1: int, s2: Seq<char>, pos2: int, w: int)
    requires
        spec_agree(s1, pos1, s2, pos2, w),
        crate::spec_digits_end(s1, pos1) < pos1 + w,
    ensures
        crate::spec_digits_end(s2, pos2) == crate::spec_digits_end(s1, pos1) + pos2 - pos1,
    decreases w,
{
    lemma_digits_end_low(s1, pos1);
    if 0 <= pos1 && pos1 < s1.len() && crate::convert::is_digit(s1[pos1]) {
        assert(s1[pos1 + 0] == s2[pos2 + 0]);
        agree_shift(s1, pos1, s2, pos2, w, 1);
        digits_end_replay(s1, pos1 + 1, s2, pos2 + 1, w - 1);
    } else {
        assert(s1[pos1 + 0] == s2[pos2 + 0]);
    }
}

proof fn version_replay(s1: Seq<char>, pos1: int, s2: Seq<char>, pos2: int, w: int)
    requires
        spec_agree(s1, pos1, s2, pos2, w),
        spec_version(s1, pos1) matches Some((e, v)) && e < pos1 + w,
    ensures
        ({
            let (e, v) = spec_version(s1, pos1)->0;
            spec_version(s2, pos2) == Some((e + pos2 - pos1, v))
        }),
{
    let d = pos2 - pos1;
    let (e, v) = spec_version(s1, pos1)->0;
    lemma_digits_end_low(s1, pos1);
    digits_end_replay(s1, pos1, s2, pos2, w);
    assert forall|j: int| 0 <= j < e - pos1 implies s2.subrange(pos2, e + d)[j] == s1.subrange(
        pos1,
        e,
    )[j] by {
        assert(s1[pos1 + j] == s2[pos2 + j]);
    }
    assert(s2.subrange(pos2, e + d) =~= s1.subrange(pos1, e));
}

proof fn section_general_replay(s1: Seq<char>, pos1: int, s2: Seq<char>, pos2: int, w: int)
    requires
        spec_agree(s1, pos1, s2, pos2, w),
        spec_section_general(s1, pos1) matches Ok(Some((p, v))) && p <= pos1 + w,
    ensures
        ({
            let (p, v) = spec_section_general(s1, pos1)->Ok_0->Some_0;
            spec_section_general(s2, pos2) == Ok::<Option<(int, GeneralView)>, OsuError>(
                Some((p + pos2 - pos1, v)),
            )
        }),
{
    let d = pos2 - pos1;
    let tag = "[General]"@;
    let p0 = pos1 + tag.len() + 2;
    lemma_kv_pairs_bounds(s1, p0);
    header_replay(s1, pos1, s2, pos2, w, tag);
    agree_shift(s1, pos1, s2, pos2, w, p0 - pos1);
    kv_pairs_replay(s1, p0, s2, p0 + d, w - (p0 - pos1));
}

proof fn section_editor_replay(s1: Seq<char>, pos1: int, s2: Seq<char>, pos2: int, w: int)
    requires
        spec_agree(s1, pos1, s2, pos2, w),
        spec_section_editor(s1, pos1) matches Ok(Some((p, v))) && p <= pos1 + w,
    ensures
        ({
            let (p, v) = spec_section_editor(s1, pos1)->Ok_0->Some_0;
            spec_section_editor(s2, pos2) == Ok::<Option<(int, EditorView)>, OsuError>(
                Some((p + pos2 - pos1, v)),
            )
        }),
{
    let d = pos2 - pos1;
    let tag = "[Editor]"@;
    let p0 = pos1 + tag.len() + 2;
    lemma_kv_pairs_bounds(s1, p0);
    header_replay(s1, pos1, s2, pos2, w, tag);
    agree_shift(s1, pos1, s2, pos2, w, p0 - pos1);
    kv_pairs_replay(s1, p0, s2, p0 + d, w - (p0 - pos1));
}

proof fn section_metadata_replay(s1: Seq<char>, pos1: int, s2: Seq<char>, pos2: int, w: int)
    requires
        spec_agree(s1, pos1, s2, pos2, w),
        spec_section_metadata(s1, pos1) matches Ok(Some((p, v))) && p <= pos1 + w,
    ensures
        ({
            let (p, v) = spec_section_metadata(s1, pos1)->Ok_0->Some_0;
            spec_section_metadata(s2, pos2) == Ok::<Option<(int, MetadataView)>, OsuError>(
                Some((p + pos2 - pos1, v)),
            )
        }),
{
    let d = pos2 - pos1;
    let tag = "[Metadata]"@;
    let p0 = pos1 + tag.len() + 2;
    lemma_kv_pairs_bounds(s1, p0);
    header_replay(s1, pos1, s2, pos2, w, tag);
    agree_shift(s1, pos1, s2, pos2, w, p0 - pos1);
    kv_pairs_replay(s1, p0, s2, p0 + d, w - (p0 - pos1));
}

proof fn section_difficulty_replay(s1: Seq<char>, pos1: int, s2: Seq<char>, pos2: int, w: int)
    requires
        spec_agree(s1, pos1, s2, pos2, w),
        spec_section_difficulty(s1, pos1) matches Ok(Some((p, v))) && p <= pos1 + w,
    ensures
        ({
            let (p, v) = spec_section_difficulty(s1, pos1)->Ok_0->Some_0;
            spec_section_difficulty(s2, pos2) == Ok::<Option<(int, Difficulty)>, OsuError>(
                Some((p + pos2 - pos1, v)),
            )
        }),
{
    let d = pos2 - pos1;
    let tag = "[Difficulty]"@;
    let p0 = pos1 + tag.len() + 2;
    lemma_kv_pairs_bounds(s1, p0);
    header_replay(s1, pos1, s2, pos2, w, tag);
    agree_shift(s1, pos1, s2, pos2, w, p0 - pos1);
    kv_pairs_replay(s1, p0, s2, p0 + d, w - (p0 - pos1));
}

proof fn section_events_replay(s1: Seq<char>, pos1: int, s2: Seq<char>, pos2: int, w: int)
    requires
        spec_agree(s1, pos1, s2, pos2, w),
        spec_section_events(s1, pos1) matches Ok(Some((b, v))) && b < pos1 + w,
    ensures
        ({
            let (b, v) = spec_section_events(s1, pos1)->Ok_0->Some_0;
            spec_section_events(s2, pos2) == Ok::<Option<(int, EventsView)>, OsuError>(
                Some((b + pos2 - pos1, v)),
            )
        }),
{
    let d = pos2 - pos1;
    let tag = "[Events]"@;
    let p0 = pos1 + tag.len() + 2;
    let (b, v) = spec_section_events(s1, pos1)->Ok_0->Some_0;
    let p1 = spec_skip_comments(s1, p0);
    crate::scan::lemma_skip_comments(s1, p0);
    let (p2, bg) = spec_comma_record(s1, p1)->0;
    crate::scan::lemma_find_crlf(s1, p1);
    let p3 = spec_skip_comments(s1, p2);
    crate::scan::lemma_skip_comments(s1, p2);
    let (p4, mv) = spec_comma_record(s1, p3)->0;
    crate::scan::lemma_find_crlf(s1, p3);
    crate::scan::lemma_find_char(s1, p4, '[');
    header_replay(s1, pos1, s2, pos2, w, tag);
    agree_shift(s1, pos1, s2, pos2, w, p0 - pos1);
    skip_comments_replay(s1, p0, s2, p0 + d, w - (p0 - pos1));
    agree_shift(s1, pos1, s2, pos2, w, p1 - pos1);
    comma_record_replay(s1, p1, s2, p1 + d, w - (p1 - pos1));
    agree_shift(s1, pos1, s2, pos2, w, p2 - pos1);
    skip_comments_replay(s1, p2, s2, p2 + d, w - (p2 - pos1));
    agree_shift(s1, pos1, s2, pos2, w, p3 - pos1);
    comma_record_replay(s1, p3, s2, p3 + d, w - (p3 - pos1));
    agree_shift(s1, pos1, s2, pos2, w, p4 - pos1);
    find_char_replay(s1, p4, s2, p4 + d, w - (p4 - pos1), '[');
}

proof fn section_timing_points_replay(s1: Seq<char>, pos1: int, s2: Seq<char>, pos2: int, w: int)
    requires
        spec_agree(s1, pos1, s2, pos2, w),
        spec_section_timing_points(s1, pos1) matches Ok(Some((b, v))) && b < pos1 + w,
    ensures
        ({
            let (b, v) = spec_section_timing_points(s1, pos1)->Ok_0->Some_0;
            spec_section_timing_points(s2, pos2) == Ok::<Option<(int, Seq<TimingPoint>)>, OsuError>(
                Some((b + pos2 - pos1, v)),
            )
        }),
{
    let d = pos2 - pos1;
    let tag = "[TimingPoints]"@;
    let p0 = pos1 + tag.len() + 2;
    let (b, v) = spec_section_timing_points(s1, pos1)->Ok_0->Some_0;
    lemma_tp_records_bounds(s1, p0);
    let (q, tps) = crate::sections::spec_tp_records(s1, p0)->Ok_0;
    crate::scan::lemma_find_char(s1, q, '[');
    header_replay(s1, pos1, s2, pos2, w, tag);
    agree_shift(s1, pos1, s2, pos2, w, p0 - pos1);
    tp_records_replay(s1, p0, s2, p0 + d, w - (p0 - pos1));
    agree_shift(s1, pos1, s2, pos2, w, q - pos1);
    find_char_replay(s1, q, s2, q + d, w - (q - pos1), '[');
}

proof fn section_colours_replay(s1: Seq<char>, pos1: int, s2: Seq<char>, pos2: int, w: int)
    requires
        spec_agree(s1, pos1, s2, pos2, w),
        spec_section_colours(s1, pos1) matches Ok(Some((b, v))) && b < pos1 + w,
    ensures
        ({
            let (b, v) = spec_section_colours(s1, pos1)->Ok_0->Some_0;
            spec_section_colours(s2, pos2) == Ok::<Option<(int, Seq<Colour>)>, OsuError>(
                Some((b + pos2 - pos1, v)),
            )
        }),
{
    let d = pos2 - pos1;
    let tag = "[Colours]"@;
    let p0 = pos1 + tag.len() + 2;
    let (b, v) = spec_section_colours(s1, pos1)->Ok_0->Some_0;
    lemma_colour_records_bounds(s1, p0);
    let (q, cs) = crate::sections::spec_colour_records(s1, p0)->Ok_0;
    crate::scan::lemma_find_char(s1, q, '[');
    header_replay(s1, pos1, s2, pos2, w, tag);
    agree_shift(s1, pos1, s2, pos2, w, p0 - pos1);
    colour_records_replay(s1, p0, s2, p0 + d, w - (p0 - pos1));
    agree_shift(s1, pos1, s2, pos2, w, q - pos1);
    find_char_replay(s1, q, s2, q + d, w - (q - pos1), '[');
}

proof fn section_hit_objects_replay(s1: Seq<char>, pos1: int, s2: Seq<char>, pos2: int, w: int)
    requires
        spec_agree(s1, pos1, s2, pos2, w),
        spec_section_hit_objects(s1, pos1) matches Ok(Some((q, v))) && q <= pos1 + w,
        ({
            let end2 = spec_section_hit_objects(s1, pos1)->Ok_0->Some_0.0 + pos2 - pos1;
            end2 >= s2.len() || crlf_at(s2, end2) || (0 <= end2 < s2.len() && s2[end2] == '[')
                || spec_find_crlf(s2, end2) is None
        }),
    ensures
        ({
            let (q, v) = spec_section_hit_objects(s1, pos1)->Ok_0->Some_0;
            spec_section_hit_objects(s2, pos2) == Ok::<Option<(int, Seq<HitObj>)>, OsuError>(
                Some((q + pos2 - pos1, v)),
            )
        }),
{
    let d = pos2 - pos1;
    let tag = "[HitObjects]"@;
    let p0 = pos1 + tag.len() + 2;
    let (q, v) = spec_section_hit_objects(s1, pos1)->Ok_0->Some_0;
    lemma_hit_records_bounds(s1, p0);
    header_replay(s1, pos1, s2, pos2, w, tag);
    agree_shift(s1, pos1, s2, pos2, w, p0 - pos1);
    hit_records_replay(s1, p0, s2, p0 + d, w - (p0 - pos1));
}

/// Assembly of eight blocks laid out in declared order: each step matches
/// the next section in the try order, so no header knowledge is needed.
#[verifier::rlimit(100)]
proof fn lemma_assemble_forward(
    s: Seq<char>,
    a: int,
    g: int,
    e: int,
    m: int,
    dd: int,
    ev: int,
    tp: int,
    co: int,
    ho: int,
)
    requires
        spec_section_general(s, a) matches Ok(Some((p, _))) && p == g,
        spec_section_editor(s, g) matches Ok(Some((p, _))) && p == e,
        spec_section_metadata(s, e) matches Ok(Some((p, _))) && p == m,
        spec_section_difficulty(s, m) matches Ok(Some((p, _))) && p == dd,
        spec_section_events(s, dd) matches Ok(Some((p, _))) && p == ev,
        spec_section_timing_points(s, ev) matches Ok(Some((p, _))) && p == tp,
        spec_section_colours(s, tp) matches Ok(Some((p, _))) && p == co,
        spec_section_hit_objects(s, co) matches Ok(Some((p, _))) && p == ho,
        a < g,
        g < e,
        e < m,
        m < dd,
        dd < ev,
        ev < tp,
        tp < co,
        co < ho,
        ho <= s.len(),
    ensures
        spec_sections(s, a, spec_empty_parts()) == Ok::<PartialDoc, OsuError>(
            PartialDoc {
                general: Some(spec_section_general(s, a)->Ok_0->Some_0.1),
                editor: Some(spec_section_editor(s, g)->Ok_0->Some_0.1),
                metadata: Some(spec_section_metadata(s, e)->Ok_0->Some_0.1),
                difficulty: Some(spec_section_difficulty(s, m)->Ok_0->Some_0.1),
                events: Some(spec_section_events(s, dd)->Ok_0->Some_0.1),
                timing_points: Some(spec_section_timing_points(s, ev)->Ok_0->Some_0.1),
                colours: Some(spec_section_colours(s, tp)->Ok_0->Some_0.1),
                hit_objects: Some(spec_section_hit_objects(s, co)->Ok_0->Some_0.1),
            },
        ),
{
    let st0 = spec_empty_parts();
    let vg = spec_section_general(s, a)->Ok_0->Some_0.1;
    let ve = spec_section_editor(s, g)->Ok_0->Some_0.1;
    let vm = spec_section_metadata(s, e)->Ok_0->Some_0.1;
    let vd = spec_section_difficulty(s, m)->Ok_0->Some_0.1;
    let vev = spec_section_events(s, dd)->Ok_0->Some_0.1;
    let vtp = spec_section_timing_points(s, ev)->Ok_0->Some_0.1;
    let vco = spec_section_colours(s, tp)->Ok_0->Some_0.1;
    let vho = spec_section_hit_objects(s, co)->Ok_0->Some_0.1;
    let st1 = PartialDoc { general: Some(vg), ..st0 };
    let st2 = PartialDoc { editor: Some(ve), ..st1 };
    let st3 = PartialDoc { metadata: Some(vm), ..st2 };
    let st4 = PartialDoc { difficulty: Some(vd), ..st3 };
    let st5 = PartialDoc { events: Some(vev), ..st4 };
    let st6 = PartialDoc { timing_points: Some(vtp), ..st5 };
    let st7 = PartialDoc { colours: Some(vco), ..st6 };
    let st8 = PartialDoc { hit_objects: Some(vho), ..st7 };
    assert(spec_step(s, a, st0) == Ok::<Option<(int, PartialDoc)>, OsuError>(Some((g, st1))));
    assert(spec_sections(s, a, st0) == spec_sections(s, g, st1));
    assert(spec_step(s, g, st1) == Ok::<Option<(int, PartialDoc)>, OsuError>(Some((e, st2))));
    assert(spec_sections(s, g, st1) == spec_sections(s, e, st2));
    assert(spec_step(s, e, st2) == Ok::<Option<(int, PartialDoc)>, OsuError>(Some((m, st3))));
    assert(spec_sections(s, e, st2) == spec_sections(s, m, st3));
    assert(spec_step(s, m, st3) == Ok::<Option<(int, PartialDoc)>, OsuError>(Some((dd, st4))));
    assert(spec_sections(s, m, st3) == spec_sections(s, dd, st4));
    assert(spec_step(s, dd, st4) == Ok::<Option<(int, PartialDoc)>, OsuError>(Some((ev, st5))));
    assert(spec_sections(s, dd, st4) == spec_sections(s, ev, st5));
    assert(spec_step(s, ev, st5) == Ok::<Option<(int, PartialDoc)>, OsuError>(Some((tp, st6))));
    assert(spec_sections(s, ev, st5) == spec_sections(s, tp, st6));
    assert(spec_step(s, tp, st6) == Ok::<Option<(int, PartialDoc)>, OsuError>(Some((co, st7))));
    assert(spec_sections(s, tp, st6) == spec_sections(s, co, st7));
    assert(spec_step(s, co, st7) == Ok::<Option<(int, PartialDoc)>, OsuError>(Some((ho, st8))));
    assert(spec_sections(s, co, st7) == spec_sections(s, ho, st8));
    assert(spec_complete(st8));
    assert(spec_sections(s, ho, st8) == Ok::<PartialDoc, OsuError>(st8));
}

/// Assembly of eight blocks laid out in reverse declared order: at each
/// block only the block's own decoder matches, because the header tags
/// exclude one another, so the try order walks past the earlier candidates.
#[verifier::rlimit(100)]
proof fn lemma_assemble_reverse(
    s: Seq<char>,
    rho: int,
    rco: int,
    rtp: int,
    rev: int,
    rdd: int,
    rm: int,
    re: int,
    rg: int,
    rend: int,
)
    requires
        spec_section_hit_objects(s, rho) matches Ok(Some((p, _))) && p == rco,
        spec_section_colours(s, rco) matches Ok(Some((p, _))) && p == rtp,
        spec_section_timing_points(s, rtp) matches Ok(Some((p, _))) && p == rev,
        spec_section_events(s, rev) matches Ok(Some((p, _))) && p == rdd,
        spec_section_difficulty(s, rdd) matches Ok(Some((p, _))) && p == rm,
        spec_section_metadata(s, rm) matches Ok(Some((p, _))) && p == re,
        spec_section_editor(s, re) matches Ok(Some((p, _))) && p == rg,
        spec_section_general(s, rg) matches Ok(Some((p, _))) && p == rend,
        rho < rco,
        rco < rtp,
        rtp < rev,
        rev < rdd,
        rdd < rm,
        rm < re,
        re < rg,
        rg < rend,
        rend <= s.len(),
    ensures
        spec_sections(s, rho, spec_empty_parts()) == Ok::<PartialDoc, OsuError>(
            PartialDoc {
                general: Some(spec_section_general(s, rg)->Ok_0->Some_0.1),
                editor: Some(spec_section_editor(s, re)->Ok_0->Some_0.1),
                metadata: Some(spec_section_metadata(s, rm)->Ok_0->Some_0.1),
                difficulty: Some(spec_section_difficulty(s, rdd)->Ok_0->Some_0.1),
                events: Some(spec_section_events(s, rev)->Ok_0->Some_0.1),
                timing_points: Some(spec_section_timing_points(s, rtp)->Ok_0->Some_0.1),
                colours: Some(spec_section_colours(s, rco)->Ok_0->Some_0.1),
                hit_objects: Some(spec_section_hit_objects(s, rho)->Ok_0->Some_0.1),
            },
        ),
{
    let st0 = spec_empty_parts();
    let vho = spec_section_hit_objects(s, rho)->Ok_0->Some_0.1;
    let vco = spec_section_colours(s, rco)->Ok_0->Some_0.1;
    let vtp = spec_section_timing_points(s, rtp)->Ok_0->Some_0.1;
    let vev = spec_section_events(s, rev)->Ok_0->Some_0.1;
    let vd = spec_section_difficulty(s, rdd)->Ok_0->Some_0.1;
    let vm = spec_section_metadata(s, rm)->Ok_0->Some_0.1;
    let ve = spec_section_editor(s, re)->Ok_0->Some_0.1;
    let vg = spec_section_general(s, rg)->Ok_0->Some_0.1;
    let st1 = PartialDoc { hit_objects: Some(vho), ..st0 };
    let st2 = PartialDoc { colours: Some(vco), ..st1 };
    let st3 = PartialDoc { timing_points: Some(vtp), ..st2 };
    let st4 = PartialDoc { events: Some(vev), ..st3 };
    let st5 = PartialDoc { difficulty: Some(vd), ..st4 };
    let st6 = PartialDoc { metadata: Some(vm), ..st5 };
    let st7 = PartialDoc { editor: Some(ve), ..st6 };
    let st8 = PartialDoc { general: Some(vg), ..st7 };

    lemma_tag_chars(s, rho);
    assert(spec_has_tag(s, rho, "[HitObjects]"@));
    assert(spec_section_general(s, rho) == Ok::<Option<(int, GeneralView)>, OsuError>(None));
    assert(spec_section_editor(s, rho) == Ok::<Option<(int, EditorView)>, OsuError>(None));
    assert(spec_section_metadata(s, rho) == Ok::<Option<(int, MetadataView)>, OsuError>(None));
    assert(spec_section_difficulty(s, rho) == Ok::<Option<(int, Difficulty)>, OsuError>(None));
    assert(spec_section_events(s, rho) == Ok::<Option<(int, EventsView)>, OsuError>(None));
    assert(spec_section_timing_points(s, rho) == Ok::<
        Option<(int, Seq<TimingPoint>)>,
        OsuError,
    >(None));
    assert(spec_section_colours(s, rho) == Ok::<Option<(int, Seq<Colour>)>, OsuError>(None));
    assert(spec_step(s, rho, st0) == Ok::<Option<(int, PartialDoc)>, OsuError>(Some((rco, st1))));
    assert(spec_sections(s, rho, st0) == spec_sections(s, rco, st1));

    lemma_tag_chars(s, rco);
    assert(spec_has_tag(s, rco, "[Colours]"@));
    assert(spec_section_general(s, rco) == Ok::<Option<(int, GeneralView)>, OsuError>(None));
    assert(spec_section_editor(s, rco) == Ok::<Option<(int, EditorView)>, OsuError>(None));
    assert(spec_section_metadata(s, rco) == Ok::<Option<(int, MetadataView)>, OsuError>(None));
    assert(spec_section_difficulty(s, rco) == Ok::<Option<(int, Difficulty)>, OsuError>(None));
    assert(spec_section_events(s, rco) == Ok::<Option<(int, EventsView)>, OsuError>(None));
    assert(spec_section_timing_points(s, rco) == Ok::<
        Option<(int, Seq<TimingPoint>)>,
        OsuError,
    >(None));
    assert(spec_step(s, rco, st1) == Ok::<Option<(int, PartialDoc)>, OsuError>(Some((rtp, st2))));
    assert(spec_sections(s, rco, st1) == spec_sections(s, rtp, st2));

    lemma_tag_chars(s, rtp);
    assert(spec_has_tag(s, rtp, "[TimingPoints]"@));
    assert(spec_section_general(s, rtp) == Ok::<Option<(int, GeneralView)>, OsuError>(None));
    assert(spec_section_editor(s, rtp) == Ok::<Option<(int, EditorView)>, OsuError>(None));
    assert(spec_section_metadata(s, rtp) == Ok::<Option<(int, MetadataView)>, OsuError>(None));
    assert(spec_section_difficulty(s, rtp) == Ok::<Option<(int, Difficulty)>, OsuError>(None));
    assert(spec_section_events(s, rtp) == Ok::<Option<(int, EventsView)>, OsuError>(None));
    assert(spec_step(s, rtp, st2) == Ok::<Option<(int, PartialDoc)>, OsuError>(Some((rev, st3))));
    assert(spec_sections(s, rtp, st2) == spec_sections(s, rev, st3));

    lemma_tag_chars(s, rev);
    assert(spec_has_tag(s, rev, "[Events]"@));
    assert(spec_section_general(s, rev) == Ok::<Option<(int, GeneralView)>, OsuError>(None));
    assert(spec_section_editor(s, rev) == Ok::<Option<(int, EditorView)>, OsuError>(None));
    assert(spec_section_metadata(s, rev) == Ok::<Option<(int, MetadataView)>, OsuError>(None));
    assert(spec_section_difficulty(s, rev) == Ok::<Option<(int, Difficulty)>, OsuError>(None));
    assert(spec_step(s, rev, st3) == Ok::<Option<(int, PartialDoc)>, OsuError>(Some((rdd, st4))));
    assert(spec_sections(s, rev, st3) == spec_sections(s, rdd, st4));

    lemma_tag_chars(s, rdd);
    assert(spec_has_tag(s, rdd, "[Difficulty]"@));
    assert(spec_section_general(s, rdd) == Ok::<Option<(int, GeneralView)>, OsuError>(None));
    assert(spec_section_editor(s, rdd) == Ok::<Option<(int, EditorView)>, OsuError>(None));
    assert(spec_section_metadata(s, rdd) == Ok::<Option<(int, MetadataView)>, OsuError>(None));
    assert(spec_step(s, rdd, st4) == Ok::<Option<(int, PartialDoc)>, OsuError>(Some((rm, st5))));
    assert(spec_sections(s, rdd, st4) == spec_sections(s, rm, st5));

    lemma_tag_chars(s, rm);
    assert(spec_has_tag(s, rm, "[Metadata]"@));
    assert(spec_section_general(s, rm) == Ok::<Option<(int, GeneralView)>, OsuError>(None));
    assert(spec_section_editor(s, rm) == Ok::<Option<(int, EditorView)>, OsuError>(None));
    assert(spec_step(s, rm, st5) == Ok::<Option<(int, PartialDoc)>, OsuError>(Some((re, st6))));
    assert(spec_sections(s, rm, st5) == spec_sections(s, re, st6));

    lemma_tag_chars(s, re);
    assert(spec_has_tag(s, re, "[Editor]"@));
    assert(spec_section_general(s, re) == Ok::<Option<(int, GeneralView)>, OsuError>(None));
    assert(spec_step(s, re, st6) == Ok::<Option<(int, PartialDoc)>, OsuError>(Some((rg, st7))));
    assert(spec_sections(s, re, st6) == spec_sections(s, rg, st7));

    assert(spec_step(s, rg, st7) == Ok::<Option<(int, PartialDoc)>, OsuError>(Some((rend, st8))));
    assert(spec_sections(s, rg, st7) == spec_sections(s, rend, st8));
    assert(spec_complete(st8));
    assert(spec_sections(s, rend, st8) == Ok::<PartialDoc, OsuError>(st8));
}

proof fn agree_extend(s1: Seq<char>, pos1: int, s2: Seq<char>, pos2: int, w: int)
    requires
        spec_agree(s1, pos1, s2, pos2, w),
        pos1 + w < s1.len(),
        pos2 + w < s2.len(),
        s1[pos1 + w] == s2[pos2 + w],
    ensures
        spec_agree(s1, pos1, s2, pos2, w + 1),
{
    assert forall|k: int| 0 <= k < w + 1 implies #[trigger] s1[pos1 + k] == s2[pos2 + k] by {
        if k < w {
            assert(s1[pos1 + k] == s2[pos2 + k]);
        }
    }
}

/// Law (section order independence): a document whose eight sections stand
/// as consecutive blocks after the version header decodes to exactly the
/// same document when the same header is followed by the same blocks in
/// reverse declared order.  The positions name the block boundaries in the
/// forward input `s1`; `s2` carries the same header and the same blocks,
/// reversed.
#[verifier::rlimit(100)]
pub proof fn lemma_reverse_order_same_document(
    s1: Seq<char>,
    s2: Seq<char>,
    a: int,
    g: int,
    e: int,
    m: int,
    dd: int,
    ev: int,
    tp: int,
    co: int,
    ho: int,
)
    requires
        spec_has_tag(s1, 0, "osu file format v"@),
        spec_version(s1, "osu file format v"@.len() as int) matches Some((dv, ver)) && crlf_at(
            s1,
            dv,
        ) && spec_skip_multispace(s1, dv + 2) == a,
        spec_section_general(s1, a) matches Ok(Some((p, _))) && p == g,
        spec_section_editor(s1, g) matches Ok(Some((p, _))) && p == e,
        spec_section_metadata(s1, e) matches Ok(Some((p, _))) && p == m,
        spec_section_difficulty(s1, m) matches Ok(Some((p, _))) && p == dd,
        spec_section_events(s1, dd) matches Ok(Some((p, _))) && p == ev,
        spec_section_timing_points(s1, ev) matches Ok(Some((p, _))) && p == tp,
        spec_section_colours(s1, tp) matches Ok(Some((p, _))) && p == co,
        spec_section_hit_objects(s1, co) matches Ok(Some((p, _))) && p == ho,
        a < g,
        g < e,
        e < m,
        m < dd,
        dd < ev,
        ev < tp,
        tp < co,
        co < ho,
        ho <= s1.len(),
        s2.len() == ho,
        spec_agree(s1, 0, s2, 0, a),
        spec_agree(s1, co, s2, a, ho - co),
        spec_agree(s1, tp, s2, a + (ho - co), co - tp),
        spec_agree(s1, ev, s2, a + (ho - tp), tp - ev),
        spec_agree(s1, dd, s2, a + (ho - ev), ev - dd),
        spec_agree(s1, m, s2, a + (ho - dd), dd - m),
        spec_agree(s1, e, s2, a + (ho - m), m - e),
        spec_agree(s1, g, s2, a + (ho - e), e - g),
        spec_agree(s1, a, s2, a + (ho - g), g - a),
    ensures
        spec_parse_osu(s1) is Ok,
        spec_parse_osu(s2) == spec_parse_osu(s1),
{
    let tag = "osu file format v"@;
    let ll = tag.len() as int;
    let (dv, ver) = spec_version(s1, ll)->0;
    crate::scan::lemma_skip_multispace(s1, dv + 2);
    lemma_digits_end_low(s1, ll);

    // Every block of the forward input opens with its own header tag.
    lemma_tag_chars(s1, a);
    lemma_tag_chars(s1, g);
    lemma_tag_chars(s1, e);
    lemma_tag_chars(s1, m);
    lemma_tag_chars(s1, dd);
    lemma_tag_chars(s1, ev);
    lemma_tag_chars(s1, tp);
    lemma_tag_chars(s1, co);
    assert(spec_has_tag(s1, a, "[General]"@));
    assert(spec_has_tag(s1, g, "[Editor]"@));
    assert(spec_has_tag(s1, e, "[Metadata]"@));
    assert(spec_has_tag(s1, m, "[Difficulty]"@));
    assert(spec_has_tag(s1, dd, "[Events]"@));
    assert(spec_has_tag(s1, ev, "[TimingPoints]"@));
    assert(spec_has_tag(s1, tp, "[Colours]"@));
    assert(spec_has_tag(s1, co, "[HitObjects]"@));

    // Every block boundary holds `[` in both inputs, so the agreed windows
    // can grow by the one lookahead character some decoders read.
    assert(s2[a + 0] == s1[co + 0]);
    assert(s2[(a + (ho - co)) + 0] == s1[tp + 0]);
    assert(s2[(a + (ho - tp)) + 0] == s1[ev + 0]);
    assert(s2[(a + (ho - ev)) + 0] == s1[dd + 0]);
    assert(s2[(a + (ho - dd)) + 0] == s1[m + 0]);
    assert(s2[(a + (ho - m)) + 0] == s1[e + 0]);
    assert(s2[(a + (ho - e)) + 0] == s1[g + 0]);
    assert(s2[(a + (ho - g)) + 0] == s1[a + 0]);

    agree_extend(s1, 0, s2, 0, a);
    agree_extend(s1, dd, s2, a + (ho - ev), ev - dd);
    agree_extend(s1, ev, s2, a + (ho - tp), tp - ev);
    agree_extend(s1, tp, s2, a + (ho - co), co - tp);

    // The header reads identically in the reversed input.
    has_tag_replay(s1, 0, s2, 0, a + 1, tag);
    agree_shift(s1, 0, s2, 0, a + 1, ll);
    version_replay(s1, ll, s2, ll, a + 1 - ll);
    assert(s1[0 + dv] == s2[0 + dv]);
    assert(s1[0 + (dv + 1)] == s2[0 + (dv + 1)]);
    assert(crlf_at(s2, dv));
    agree_shift(s1, 0, s2, 0, a + 1, dv + 2);
    skip_multispace_replay(s1, dv + 2, s2, dv + 2, (a + 1) - (dv + 2));
    assert(spec_skip_multispace(s2, dv + 2) == a);

    // Each section replays on its block in the reversed input.
    section_general_replay(s1, a, s2, a + (ho - g), g - a);
    section_editor_replay(s1, g, s2, a + (ho - e), e - g);
    section_metadata_replay(s1, e, s2, a + (ho - m), m - e);
    section_difficulty_replay(s1, m, s2, a + (ho - dd), dd - m);
    section_events_replay(s1, dd, s2, a + (ho - ev), (ev - dd) + 1);
    section_timing_points_replay(s1, ev, s2, a + (ho - tp), (tp - ev) + 1);
    section_colours_replay(s1, tp, s2, a + (ho - co), (co - tp) + 1);
    assert(s2[(a + (ho - co)) + 0] == '[');
    section_hit_objects_replay(s1, co, s2, a, ho - co);

    // Both layouts assemble, and they fill the same slots with the same
    // values.
    lemma_assemble_forward(s1, a, g, e, m, dd, ev, tp, co, ho);
    lemma_assemble_reverse(
        s2,
        a,
        a + (ho - co),
        a + (ho - tp),
        a + (ho - ev),
        a + (ho - dd),
        a + (ho - m),
        a + (ho - e),
        a + (ho - g),
        ho,
    );
    assert(spec_sections(s2, a, spec_empty_parts()) == spec_sections(s1, a, spec_empty_parts()));
    assert(spec_has_tag(s2, 0, tag));
    assert(spec_version(s2, ll) == Some((dv, ver)));
}

} // verus!
