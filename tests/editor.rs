use sequencer::editor::{App, Command, EditingMode, Key};
use sequencer::text::{is_quit_command, pitch_name_text, write_decimal};

fn keys(app: &mut App, text: &str) {
    for c in text.chars() {
        app.process_key(Key::Char(c));
    }
}

#[test]
fn starts_in_normal_mode_at_the_header() {
    let app = App::new();
    assert_eq!(app.cursor(), (0, 0));
    assert_eq!(app.mode(), EditingMode::Normal);
    assert!(!app.should_exit());
    assert_eq!(app.active_step(), 0);
}

#[test]
fn cursor_wraps_around_the_grid() {
    let mut app = App::new();
    assert!(app.process_key(Key::Char('h')).is_none());
    assert_eq!(app.cursor(), (92, 0));
    app.process_key(Key::Char('l'));
    assert_eq!(app.cursor(), (0, 0));
    app.process_key(Key::Char('k'));
    assert_eq!(app.cursor(), (0, 15));
    app.process_key(Key::Char('j'));
    assert_eq!(app.cursor(), (0, 0));
}

#[test]
fn edits_on_the_header_do_nothing() {
    let mut app = App::new();
    assert!(app.process_key(Key::Char('x')).is_none());
    app.process_key(Key::Char('i'));
    assert!(app.process_key(Key::Char('C')).is_none());
    assert_eq!(app.get_grid()[0][0], "___ ");
}

#[test]
fn typing_in_insert_mode_sets_the_cell() {
    let mut app = App::new();
    keys(&mut app, "ji");
    assert_eq!(app.mode(), EditingMode::Insert);
    let first = app.process_key(Key::Char('C')).expect("a state");
    assert_eq!(first[0].notes[0].map(|n| n.pitch), Some(36));
    let second = app.process_key(Key::Char('3')).expect("a state");
    assert_eq!(second[0].notes[0].map(|n| n.pitch), Some(48));
    assert_eq!(app.get_grid()[0][0], "C3");
    assert_eq!(app.cursor(), (2, 1));
    app.process_key(Key::Esc);
    assert_eq!(app.mode(), EditingMode::Normal);
}

#[test]
fn delete_yank_and_paste() {
    let mut app = App::new();
    keys(&mut app, "jiD");
    app.process_key(Key::Esc);
    let state = app.process_key(Key::Char('x')).expect("a state");
    assert_eq!(state[0].notes[0], None);
    assert_eq!(app.get_grid()[0][0], "___ ");
    keys(&mut app, "lj");
    let pasted = app.process_key(Key::Char('p')).expect("a state");
    assert_eq!(app.get_grid()[1][1], "D");
    assert_eq!(pasted[0].notes[1], None);
    keys(&mut app, "ly");
    keys(&mut app, "k");
    let again = app.process_key(Key::Char('p')).expect("a state");
    assert_eq!(app.get_grid()[2][0], "___ ");
    assert_eq!(again.len(), 8);
}

#[test]
fn undo_and_redo_keys() {
    let mut app = App::new();
    keys(&mut app, "jiE");
    app.process_key(Key::Esc);
    let back = app.process_key(Key::Char('u')).expect("a state");
    assert_eq!(back[0].notes[0], None);
    assert_eq!(app.get_grid()[0][0], "___ ");
    let forward = app.process_key(Key::Char('r')).expect("a state");
    assert_eq!(forward[0].notes[0].map(|n| n.pitch), Some(40));
}

#[test]
fn plus_and_minus_step_numbers_and_names() {
    let mut app = App::new();
    keys(&mut app, "ji5");
    app.process_key(Key::Esc);
    app.process_key(Key::Char('+'));
    assert_eq!(app.get_grid()[0][0], "6");
    for _ in 0..7 {
        app.process_key(Key::Char('-'));
    }
    assert_eq!(app.get_grid()[0][0], "-1");
    keys(&mut app, "jib");
    app.process_key(Key::Esc);
    app.process_key(Key::Char('+'));
    assert_eq!(app.get_grid()[0][1], "C");
    app.process_key(Key::Char('+'));
    assert_eq!(app.get_grid()[0][1], "C#");
    app.process_key(Key::Char('-'));
    app.process_key(Key::Char('-'));
    assert_eq!(app.get_grid()[0][1], "B");
    keys(&mut app, "j");
    assert!(app.process_key(Key::Char('+')).is_none());
    assert_eq!(app.get_grid()[0][2], "___ ");
}

#[test]
fn quit_command() {
    let mut app = App::new();
    keys(&mut app, ":wq");
    assert_eq!(app.cmd_line(), ":wq");
    app.process_key(Key::Backspace);
    app.process_key(Key::Backspace);
    assert_eq!(app.cmd_line(), ":");
    keys(&mut app, "x");
    app.process_key(Key::Enter);
    assert!(!app.should_exit());
    assert_eq!(app.mode(), EditingMode::Normal);
    assert_eq!(app.cmd_line(), "");
    keys(&mut app, ":q  ");
    app.process_key(Key::Enter);
    assert!(app.should_exit());
}

#[test]
fn mode_line() {
    let mut app = App::new();
    app.show_mode();
    assert_eq!(app.cmd_line(), "-- NORMAL --");
    app.process_key(Key::Char('v'));
    app.show_mode();
    assert_eq!(app.cmd_line(), "-- VISUAL --");
    app.process_key(Key::Esc);
    app.process_key(Key::Char('i'));
    app.show_mode();
    assert_eq!(app.cmd_line(), "-- INSERT --");
    app.process_key(Key::Esc);
    app.process_key(Key::Char(':'));
    app.show_mode();
    assert_eq!(app.cmd_line(), ":");
}

#[test]
fn apply_commands() {
    let mut app = App::new();
    let s = app.apply(Command::Insert { x: 3, y: 5, input: "G1".to_string() });
    assert_eq!(s[1].notes[4].map(|n| n.pitch), Some(31));
    let s = app.apply(Command::Delete { x: 3, y: 5 });
    assert_eq!(s[1].notes[4], None);
    app.set_active_step(7);
    assert_eq!(app.active_step(), 7);
}

#[test]
fn text_helpers() {
    assert_eq!(write_decimal(-42), "-42");
    assert_eq!(write_decimal(0), "0");
    assert_eq!(write_decimal(2147483648), "2147483648");
    assert_eq!(pitch_name_text(1), "C#");
    assert_eq!(pitch_name_text(10), "B");
    assert!(is_quit_command(" :q\t"));
    assert!(!is_quit_command(":q!"));
    assert!(!is_quit_command(": q"));
    assert!(!is_quit_command(""));
}
