use sequencer::decimal::parse_in;
use sequencer::grammar::{decode_knob, decode_pitch, parse_pitch};
use sequencer::history::History;
use sequencer::pattern::Note;

fn cells(note: &str, harmonics: &str, morph: &str) -> Vec<String> {
    vec![note.to_string(), harmonics.to_string(), morph.to_string()]
}

fn assert_note(n: Option<Note>, timestamp: f32, pitch: i8, harmonics: Option<f32>, morph: Option<f32>) {
    let n = n.expect("a note");
    assert_eq!(n.timestamp as f32, timestamp);
    assert_eq!(n.pitch, pitch);
    assert_eq!(n.velocity, 100);
    assert_eq!(n.parameters.engine, None);
    assert_eq!(n.parameters.harmonics.map(|v| v as f32 / 100.0), harmonics);
    assert_eq!(n.parameters.morph.map(|v| v as f32 / 100.0), morph);
    assert_eq!(n.parameters.timbre, None);
}

#[test]
fn test_parse_input() {
    assert_note(History::parse_input(&cells("C0", "50", "50"), 0), 0.0, 12, Some(0.5), Some(0.5));
    assert_note(History::parse_input(&cells("C#0", "50", "50"), 1), 1.0, 13, Some(0.5), Some(0.5));
    assert_note(History::parse_input(&cells("C1", "50", "50"), 1), 1.0, 24, Some(0.5), Some(0.5));
    assert_note(History::parse_input(&cells("C", "50", "50"), 0), 0.0, 36, Some(0.5), Some(0.5));
    assert_note(History::parse_input(&cells("D", "50", "50"), 0), 0.0, 38, Some(0.5), Some(0.5));
}

#[test]
fn note_names_ignore_case() {
    assert_eq!(decode_pitch("c#1"), Some(25));
    assert_eq!(decode_pitch("g"), Some(43));
    assert_eq!(decode_pitch("B0"), Some(22));
}

#[test]
fn sharp_missing_from_table_is_a_rest() {
    // "A#" is not in the table, and after "A" the text "#" is no octave
    assert_eq!(decode_pitch("A#"), None);
    assert_eq!(decode_pitch("E#3"), None);
}

#[test]
fn negative_octave() {
    assert_eq!(decode_pitch("C-1"), Some(0));
}

#[test]
fn pitch_outside_i8_wraps() {
    assert_eq!(parse_pitch("B9"), Some(130));
    assert_eq!(decode_pitch("B9"), Some(-126));
}

#[test]
fn name_followed_by_other_text_is_a_rest() {
    assert_eq!(decode_pitch("Cx"), None);
    assert_eq!(decode_pitch("CB"), None);
    assert_eq!(decode_pitch("C#x"), None);
    assert_eq!(decode_pitch("C1 "), None);
    assert_eq!(decode_pitch("C99999999999"), None);
    assert_eq!(History::parse_input(&cells("CB", "50", "50"), 0), None);
    assert_eq!(decode_pitch("C#"), Some(37));
}

#[test]
fn numbers_are_pitches() {
    assert_eq!(decode_pitch("60"), Some(60));
    assert_eq!(decode_pitch("-5"), Some(-5));
    assert_eq!(decode_pitch("+7"), Some(7));
    assert_eq!(decode_pitch("127"), Some(127));
    assert_eq!(decode_pitch("-128"), Some(-128));
}

#[test]
fn other_text_is_a_rest() {
    assert_eq!(decode_pitch("___ "), None);
    assert_eq!(decode_pitch(""), None);
    assert_eq!(decode_pitch("128"), None);
    assert_eq!(decode_pitch("H2"), None);
    assert_eq!(decode_pitch("-"), None);
    assert_eq!(decode_pitch("1 2"), None);
    assert_eq!(History::parse_input(&cells("___ ", "50", "50"), 3), None);
}

#[test]
fn parameter_cells() {
    assert_eq!(decode_knob("75"), Some(75));
    assert_eq!(decode_knob("___ "), None);
    assert_note(History::parse_input(&cells("E2", "x", "20"), 5), 5.0, 40, None, Some(0.2));
}

#[test]
fn decimal_reading() {
    assert_eq!(parse_in("2147483647", i32::MIN as i64, i32::MAX as i64), Some(2147483647));
    assert_eq!(parse_in("2147483648", i32::MIN as i64, i32::MAX as i64), None);
    assert_eq!(parse_in("-2147483648", i32::MIN as i64, i32::MAX as i64), Some(-2147483648));
    assert_eq!(parse_in("007", -128, 127), Some(7));
    assert_eq!(parse_in("+", -128, 127), None);
    assert_eq!(parse_in("1a", -128, 127), None);
    assert_eq!(parse_in(" 1", -128, 127), None);
}
