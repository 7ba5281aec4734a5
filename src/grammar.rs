//! The grammar of a cell's text: a note name with an optional octave, a bare
//! pitch number, or anything else, which is a rest.
use vstd::prelude::*;
use crate::decimal::{parse_in, parse_in_range};
use crate::pattern::{empty_cell, Note, Parameters, DEFAULT_VELOCITY};

verus! {

/// Octave of a note name written without one.
pub const DEFAULT_OCTAVE: i64 = 2;

/// Position in the pitch-class table `C C# D D# E F F# G G# A B` of a letter,
/// in either case.
pub open spec fn natural_index(c: char) -> Option<int> {
    if c == 'C' || c == 'c' {
        Some(0)
    } else if c == 'D' || c == 'd' {
        Some(2)
    } else if c == 'E' || c == 'e' {
        Some(4)
    } else if c == 'F' || c == 'f' {
        Some(5)
    } else if c == 'G' || c == 'g' {
        Some(7)
    } else if c == 'A' || c == 'a' {
        Some(9)
    } else if c == 'B' || c == 'b' {
        Some(10)
    } else {
        None
    }
}

/// The letters that the table also holds with a sharp.
pub open spec fn has_sharp(i: int) -> bool {
    i == 0 || i == 2 || i == 5 || i == 7
}

/// Position in the pitch-class table of a one- or two-character name.
pub open spec fn pitch_class(p: Seq<char>) -> Option<int> {
    if p.len() == 1 {
        natural_index(p[0])
    } else if p.len() == 2 && p[1] == '#' {
        match natural_index(p[0]) {
            Some(i) => if has_sharp(i) {
                Some(i + 1)
            } else {
                None
            },
            None => None,
        }
    } else {
        None
    }
}

/// The octave that follows a note name: the default octave when nothing
/// follows, the 32-bit integer written there, and none for any other text.
pub open spec fn octave_of(rest: Seq<char>) -> Option<int> {
    if rest.len() == 0 {
        Some(DEFAULT_OCTAVE as int)
    } else {
        parse_in_range(rest, i32::MIN as int, i32::MAX as int)
    }
}

/// The pitch that `s` gives when its first `len` characters name a pitch
/// class and the rest is an octave or nothing.
pub open spec fn pitch_with_name_len(s: Seq<char>, len: int) -> Option<int> {
    if s.len() >= len {
        match pitch_class(s.subrange(0, len)) {
            Some(pc) => match octave_of(s.subrange(len, s.len() as int)) {
                Some(octave) => Some(pc + 12 + octave * 12),
                None => None,
            },
            None => None,
        }
    } else {
        None
    }
}

/// The pitch of a note-name cell; a two-character name is tried before a
/// one-character one.
pub open spec fn name_pitch(s: Seq<char>) -> Option<int> {
    match pitch_with_name_len(s, 2) {
        Some(p) => Some(p),
        None => pitch_with_name_len(s, 1),
    }
}

/// `x` brought into the range of `i8` modulo 256.
pub open spec fn wrap_i8(x: int) -> int {
    let m = x % 256;
    if m >= 128 {
        m - 256
    } else {
        m
    }
}

/// The pitch that a note cell holds, if any: a note name first, else a
/// number that fits in `i8`.
pub open spec fn cell_pitch(s: Seq<char>) -> Option<int> {
    match name_pitch(s) {
        Some(p) => Some(wrap_i8(p)),
        None => parse_in_range(s, i8::MIN as int, i8::MAX as int),
    }
}

/// A knob that a parameter cell holds, in hundredths.
pub open spec fn knob_value(s: Seq<char>) -> Option<i8> {
    match parse_in_range(s, i8::MIN as int, i8::MAX as int) {
        Some(v) => Some(v as i8),
        None => None,
    }
}

/// The note that the three cells of one step decode to: the note cell, the
/// harmonics cell and the morph cell.
pub open spec fn decode_cells(note: Seq<char>, harmonics: Seq<char>, morph: Seq<char>, step: int) -> Option<Note> {
    match cell_pitch(note) {
        Some(p) => Some(
            Note {
                timestamp: step as usize,
                pitch: p as i8,
                velocity: DEFAULT_VELOCITY,
                parameters: Parameters {
                    engine: None,
                    harmonics: knob_value(harmonics),
                    morph: knob_value(morph),
                    timbre: None,
                },
            },
        ),
        None => None,
    }
}

fn natural_index_of(c: char) -> (r: Option<i64>)
    ensures
        match r {
            Some(i) => natural_index(c) == Some(i as int),
            None => natural_index(c) is None,
        },
{
    if c == 'C' || c == 'c' {
        Some(0)
    } else if c == 'D' || c == 'd' {
        Some(2)
    } else if c == 'E' || c == 'e' {
        Some(4)
    } else if c == 'F' || c == 'f' {
        Some(5)
    } else if c == 'G' || c == 'g' {
        Some(7)
    } else if c == 'A' || c == 'a' {
        Some(9)
    } else if c == 'B' || c == 'b' {
        Some(10)
    } else {
        None
    }
}

/// The pitch class that the first `len` characters of `input` name.
fn prefix_class(input: &str, len: usize) -> (r: Option<i64>)
    requires
        1 <= len <= 2,
        len <= input@.len(),
    ensures
        match r {
            Some(i) => pitch_class(input@.subrange(0, len as int)) == Some(i as int),
            None => pitch_class(input@.subrange(0, len as int)) is None,
        },
{
    let ghost name = input@.subrange(0, len as int);
    assert(name[0] == input@[0]);
    assert(len == 2 ==> name[1] == input@[1]);
    let first = natural_index_of(input.get_char(0));
    if len == 1 {
        first
    } else {
        let second = input.get_char(1);
        match first {
            Some(i) => if second == '#' && (i == 0 || i == 2 || i == 5 || i == 7) {
                Some(i + 1)
            } else {
                None
            },
            None => None,
        }
    }
}

/// The entry of the pitch-class table that `input` names, in either case.
pub fn pitch_class_index(input: &str) -> (r: Option<usize>)
    ensures
        match r {
            Some(i) => pitch_class(input@) == Some(i as int),
            None => pitch_class(input@) is None,
        },
{
    let n = input.unicode_len();
    if n == 1 || n == 2 {
        assert(input@.subrange(0, n as int) =~= input@);
        match prefix_class(input, n) {
            Some(i) => Some(i as usize),
            None => None,
        }
    } else {
        None
    }
}

/// The pitch that `input` gives when its first `len` characters name a pitch
/// class and the rest is an octave or nothing, before it is brought into the
/// range of a note.
pub fn get_pitch(input: &str, len: usize) -> (r: Option<i64>)
    requires
        1 <= len <= 2,
    ensures
        match r {
            Some(p) => pitch_with_name_len(input@, len as int) == Some(p as int),
            None => pitch_with_name_len(input@, len as int) is None,
        },
{
    let n = input.unicode_len();
    if n < len {
        return None;
    }
    match prefix_class(input, len) {
        Some(pc) => {
            if n == len {
                return Some(pc + 12 + DEFAULT_OCTAVE * 12);
            }
            let rest = input.substring_char(len, n);
            match parse_in(rest, i32::MIN as i64, i32::MAX as i64) {
                Some(octave) => Some(pc + 12 + octave * 12),
                None => None,
            }
        },
        None => None,
    }
}

/// The pitch of a note-name cell, before it is brought into the range of a note.
pub fn parse_pitch(input: &str) -> (r: Option<i64>)
    ensures
        match r {
            Some(p) => name_pitch(input@) == Some(p as int),
            None => name_pitch(input@) is None,
        },
{
    match get_pitch(input, 2) {
        Some(p) => Some(p),
        None => get_pitch(input, 1),
    }
}

/// `x` brought into the range of `i8` modulo 256.
pub fn wrap_to_i8(x: i64) -> (r: i8)
    requires
        -0x100_0000_0000 <= x < 0x100_0000_0000,
    ensures
        r as int == wrap_i8(x as int),
{
    let shifted: u64 = (x + 0x100_0000_0000) as u64;
    let m: u64 = shifted % 256;
    proof {
        vstd::arithmetic::div_mod::lemma_mod_add_multiples_vanish(x as int, 256);
        assert(0x100_0000_0000int == 256 * 0x1_0000_0000int);
        vstd::arithmetic::div_mod::lemma_mod_multiples_vanish(0x1_0000_0000int, x as int, 256);
    }
    if m >= 128 {
        (m as i64 - 256) as i8
    } else {
        m as i8
    }
}

/// The pitch that a note cell holds, if any.
pub fn decode_pitch(input: &str) -> (r: Option<i8>)
    ensures
        match r {
            Some(p) => cell_pitch(input@) == Some(p as int),
            None => cell_pitch(input@) is None,
        },
{
    match parse_pitch(input) {
        Some(p) => Some(wrap_to_i8(p)),
        None => match parse_in(input, i8::MIN as i64, i8::MAX as i64) {
            Some(v) => Some(v as i8),
            None => None,
        },
    }
}

/// A knob that a parameter cell holds, in hundredths.
pub fn decode_knob(input: &str) -> (r: Option<i8>)
    ensures
        r == knob_value(input@),
{
    match parse_in(input, i8::MIN as i64, i8::MAX as i64) {
        Some(v) => Some(v as i8),
        None => None,
    }
}

/// A pitch-class name followed by an octave number, or by nothing, decodes
/// to `class + 12 + octave * 12`, with octave 2 where none is written; the
/// note's pitch is that value, modulo 256 where it leaves the range of `i8`.
pub proof fn lemma_note_name_decodes(name: Seq<char>, rest: Seq<char>, step: int)
    requires
        pitch_class(name) is Some,
        rest.len() == 0 || parse_in_range(rest, i32::MIN as int, i32::MAX as int) is Some,
    ensures
        ({
            let octave = if rest.len() == 0 {
                DEFAULT_OCTAVE as int
            } else {
                parse_in_range(rest, i32::MIN as int, i32::MAX as int)->0
            };
            let p = pitch_class(name)->0 + 12 + octave * 12;
            &&& name_pitch(name + rest) == Some(p)
            &&& cell_pitch(name + rest) == Some(wrap_i8(p))
            &&& (i8::MIN <= p <= i8::MAX ==> cell_pitch(name + rest) == Some(p))
            &&& decode_cells(name + rest, seq![], seq![], step) matches Some(n)
                && n.pitch as int == wrap_i8(p)
        }),
{
    let s = name + rest;
    let octave = if rest.len() == 0 {
        DEFAULT_OCTAVE as int
    } else {
        parse_in_range(rest, i32::MIN as int, i32::MAX as int)->0
    };
    let p = pitch_class(name)->0 + 12 + octave * 12;
    let len = name.len() as int;
    assert(s.subrange(0, len) =~= name);
    assert(s.subrange(len, s.len() as int) =~= rest);
    assert(octave_of(rest) == Some(octave));
    if len == 1 {
        if s.len() >= 2 {
            // the character after a one-letter name starts an integer, so no
            // two-character name is read
            let c = rest[0];
            assert(s.subrange(0, 2)[1] == c);
            assert(c != '#');
        }
        assert(pitch_with_name_len(s, 2) is None);
    }
    assert(name_pitch(s) == Some(p));
    if i8::MIN <= p <= i8::MAX {
        assert(p % 256 == if p >= 0 { p } else { p + 256 });
    }
}

/// A cell that reads as an integer in the range of `i8` decodes to that
/// integer as its pitch.
pub proof fn lemma_number_decodes(s: Seq<char>, step: int)
    requires
        parse_in_range(s, i8::MIN as int, i8::MAX as int) is Some,
    ensures
        cell_pitch(s) == parse_in_range(s, i8::MIN as int, i8::MAX as int),
        decode_cells(s, seq![], seq![], step) matches Some(n)
            && n.pitch as int == parse_in_range(s, i8::MIN as int, i8::MAX as int)->0,
{
    let c = s[0];
    if s.len() >= 1 {
        assert(s.subrange(0, 1)[0] == c);
    }
    if s.len() >= 2 {
        assert(s.subrange(0, 2)[0] == c);
    }
    if !(c == '-' || c == '+') {
        assert(crate::decimal::is_digit(s[0]));
    }
    assert(natural_index(c) is None);
    assert(name_pitch(s) is None);
}

/// A cell that holds neither a note name nor an integer in the range of
/// `i8` decodes to a rest, whatever its parameter cells hold.
pub proof fn lemma_other_text_is_rest(s: Seq<char>, harmonics: Seq<char>, morph: Seq<char>, step: int)
    requires
        name_pitch(s) is None,
        parse_in_range(s, i8::MIN as int, i8::MAX as int) is None,
    ensures
        decode_cells(s, harmonics, morph, step) is None,
{
}

/// A cell decodes through the note-name form only when it is a pitch-class
/// name followed by nothing or by a 32-bit integer: a name followed by any
/// other text is no note name.
pub proof fn lemma_name_needs_octave_or_nothing(s: Seq<char>)
    requires
        name_pitch(s) is Some,
    ensures
        exists|len: int|
            (len == 1 || len == 2) && len <= s.len() && #[trigger] pitch_class(s.take(len)) is Some && (s.len() == len
                || parse_in_range(s.skip(len), i32::MIN as int, i32::MAX as int) is Some),
{
    let len = if pitch_with_name_len(s, 2) is Some { 2int } else { 1int };
    assert(s.subrange(0, len) == s.take(len));
    assert(s.subrange(len, s.len() as int) == s.skip(len));
}

/// The empty cell decodes to a rest.
pub proof fn lemma_empty_cell_is_rest(harmonics: Seq<char>, morph: Seq<char>, step: int)
    ensures
        decode_cells(empty_cell(), harmonics, morph, step) is None,
{
    let s = empty_cell();
    assert(s.subrange(0, 1)[0] == '_');
    assert(s.subrange(0, 2)[0] == '_');
    assert(!crate::decimal::is_digit(s[0]));
    assert(name_pitch(s) is None);
    assert(crate::decimal::decimal_value(s) is None);
}

} // verus!
