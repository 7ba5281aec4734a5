//! The modal editor: cursor, modes, the yank register and the command line,
//! driven one key at a time. Every edit of a cell is recorded in the history,
//! and each key that changes the grid on view hands back the decoded state
//! for the engine.
use vstd::prelude::*;
use vstd::string::StringExecFns;
use crate::decimal::{parse_in, parse_in_range};
use crate::grammar::{pitch_class, pitch_class_index};
use crate::history::{blank_grid, decode_grid, pushed, redone, undone, visible, History, HistoryModel};
use crate::pattern::{empty_cell, grid_rows, state_view, state_wf, Grid, GridModel, State, INITIAL_STEP_COUNT};
use crate::text::{
    decimal_text, is_quit_command, pitch_name, pitch_name_text, pop_char, push_char, trims_to,
    write_decimal, PITCH_CLASS_COUNT,
};

verus! {

/// Screen columns that a cell takes.
pub const CELL_WIDTH: usize = 4;

/// Screen rows that a cell takes.
pub const CELL_HEIGHT: usize = 1;

/// Screen columns that the grid takes: one cell for each grid row.
pub const SCREEN_WIDTH: usize = 96;

#[derive(Clone, Copy, Debug, PartialEq, Eq, Structural)]
pub enum EditingMode {
    Normal,
    Insert,
    Visual,
    Command,
}

/// The keys that the editor tells apart.
#[derive(Clone, Copy, Debug, PartialEq, Eq, Structural)]
pub enum Key {
    Char(char),
    Esc,
    Enter,
    Backspace,
    Other,
}

/// An edit of one cell, at screen position `x` (the cell's grid row) and `y`
/// (one more than its step).
pub enum Command {
    Insert { x: usize, y: usize, input: String },
    Delete { x: usize, y: usize },
}

/// The editor as plain values. The cursor stands at screen column `x` and
/// screen row `y`; row 0 is the header, row `y` shows step `y - 1`.
pub struct AppModel {
    pub x: int,
    pub y: int,
    pub active_step: int,
    pub mode: EditingMode,
    pub register: Option<Seq<char>>,
    pub cmd_line: Seq<char>,
    pub input: Seq<char>,
    pub history: HistoryModel,
    pub exit: bool,
}

/// The cursor stands on a cell rather than on the header.
pub open spec fn on_cell(m: AppModel) -> bool {
    m.y >= 1
}

/// The text of the cell under the cursor.
pub open spec fn cell_under(m: AppModel) -> Seq<char> {
    visible(m.history)[m.x / CELL_WIDTH as int][m.y - 1]
}

/// `g` with the cell of grid row `col` at step `step` set to `text`.
pub open spec fn grid_with(g: GridModel, col: int, step: int, text: Seq<char>) -> GridModel {
    g.update(col, g[col].update(step, text))
}

/// The editor after the cell under the cursor is set to `text` and the new
/// grid is recorded in the history.
pub open spec fn with_cell(m: AppModel, text: Seq<char>) -> AppModel {
    AppModel {
        history: pushed(m.history, grid_with(visible(m.history), m.x / CELL_WIDTH as int, m.y - 1, text)),
        ..m
    }
}

/// A cell's text stepped up or down: an integer by one, a pitch-class name
/// to the next or previous name of the table, cyclically.
pub open spec fn stepped_text(v: Seq<char>, up: bool) -> Option<Seq<char>> {
    match parse_in_range(v, i32::MIN as int, i32::MAX as int) {
        Some(n) => Some(decimal_text(if up { n + 1 } else { n - 1 })),
        None => match pitch_class(v) {
            Some(i) => Some(
                pitch_name(
                    if up {
                        (i + 1) % (PITCH_CLASS_COUNT as int)
                    } else {
                        (i + PITCH_CLASS_COUNT - 1) % (PITCH_CLASS_COUNT as int)
                    },
                ),
            ),
            None => None,
        },
    }
}

/// What a character does in normal or visual mode, after the cursor is
/// aligned to its cell and the typed input is forgotten.
pub open spec fn command_key(m0: AppModel, ch: char) -> AppModel {
    let m = AppModel { x: (m0.x / CELL_WIDTH as int) * CELL_WIDTH, input: seq![], ..m0 };
    if ch == 'h' {
        AppModel { x: if m.x > 0 { m.x - CELL_WIDTH } else { SCREEN_WIDTH - CELL_WIDTH }, ..m }
    } else if ch == 'j' {
        AppModel { y: if m.y + CELL_HEIGHT < INITIAL_STEP_COUNT { m.y + CELL_HEIGHT } else { 0 }, ..m }
    } else if ch == 'k' {
        AppModel { y: if m.y > 0 { m.y - CELL_HEIGHT } else { INITIAL_STEP_COUNT - CELL_HEIGHT }, ..m }
    } else if ch == 'l' {
        AppModel { x: if m.x + CELL_WIDTH < SCREEN_WIDTH { m.x + CELL_WIDTH } else { 0 }, ..m }
    } else if ch == 'u' {
        AppModel { history: undone(m.history), ..m }
    } else if ch == 'r' {
        AppModel { history: redone(m.history), ..m }
    } else if ch == 'x' {
        if on_cell(m) {
            with_cell(AppModel { register: Some(cell_under(m)), ..m }, empty_cell())
        } else {
            m
        }
    } else if ch == ':' {
        AppModel { cmd_line: seq![':'], mode: EditingMode::Command, ..m }
    } else if ch == 'i' {
        AppModel { mode: EditingMode::Insert, ..m }
    } else if ch == 'y' {
        if on_cell(m) {
            AppModel { register: Some(cell_under(m)), ..m }
        } else {
            m
        }
    } else if ch == 'v' {
        AppModel { mode: EditingMode::Visual, ..m }
    } else if ch == 'p' {
        match m.register {
            Some(t) => if on_cell(m) {
                with_cell(m, t)
            } else {
                m
            },
            None => m,
        }
    } else if ch == '+' || ch == '-' {
        if on_cell(m) {
            match stepped_text(cell_under(m), ch == '+') {
                Some(t) => with_cell(m, t),
                None => m,
            }
        } else {
            m
        }
    } else {
        m
    }
}

/// The editor after one key.
pub open spec fn next_app(m: AppModel, key: Key) -> AppModel {
    match key {
        Key::Char(ch) => match m.mode {
            EditingMode::Normal | EditingMode::Visual => command_key(m, ch),
            EditingMode::Insert => {
                let m1 = AppModel { input: m.input.push(ch), ..m };
                let m2 = if on_cell(m1) {
                    with_cell(m1, m1.input)
                } else {
                    m1
                };
                AppModel { x: if m2.x + 1 < SCREEN_WIDTH { m2.x + 1 } else { m2.x }, ..m2 }
            },
            EditingMode::Command => AppModel { cmd_line: m.cmd_line.push(ch), ..m },
        },
        Key::Esc => if m.mode == EditingMode::Insert || m.mode == EditingMode::Visual {
            AppModel { mode: EditingMode::Normal, ..m }
        } else {
            m
        },
        Key::Enter => if m.mode == EditingMode::Command {
            AppModel {
                exit: m.exit || trims_to(m.cmd_line, seq![':', 'q']),
                cmd_line: seq![],
                mode: EditingMode::Normal,
                ..m
            }
        } else {
            m
        },
        Key::Backspace => if m.mode == EditingMode::Command {
            AppModel { cmd_line: if m.cmd_line.len() > 0 { m.cmd_line.drop_last() } else { m.cmd_line }, ..m }
        } else {
            m
        },
        Key::Other => m,
    }
}

/// Whether a key changes or may change the grid on view, so that its decoded
/// state is handed to the engine: undo, redo, and every recorded edit.
pub open spec fn publishes(m: AppModel, key: Key) -> bool {
    match key {
        Key::Char(ch) => match m.mode {
            EditingMode::Normal | EditingMode::Visual => ch == 'u' || ch == 'r' || (on_cell(m) && (ch == 'x'
                || (ch == 'p' && m.register is Some)
                || ((ch == '+' || ch == '-') && stepped_text(
                cell_under(AppModel { x: (m.x / CELL_WIDTH as int) * CELL_WIDTH, ..m }),
                ch == '+',
            ) is Some))),
            EditingMode::Insert => on_cell(m),
            EditingMode::Command => false,
        },
        _ => false,
    }
}

pub struct App {
    x: usize,
    y: usize,
    active_step: usize,
    mode: EditingMode,
    register: Option<String>,
    cmd_line: String,
    curr_input: String,
    history: History,
    exit: bool,
}

impl View for App {
    type V = AppModel;

    closed spec fn view(&self) -> AppModel {
        AppModel {
            x: self.x as int,
            y: self.y as int,
            active_step: self.active_step as int,
            mode: self.mode,
            register: match self.register {
                Some(s) => Some(s@),
                None => None,
            },
            cmd_line: self.cmd_line@,
            input: self.curr_input@,
            history: self.history@,
            exit: self.exit,
        }
    }
}

pub open spec fn app_wf(m: AppModel) -> bool {
    &&& crate::history::history_wf(m.history)
    &&& 0 <= m.x < SCREEN_WIDTH
    &&& 0 <= m.y < INITIAL_STEP_COUNT
    &&& 0 <= m.active_step
}

/// A copy of a row of cells.
fn copy_row(row: &Vec<String>) -> (r: Vec<String>)
    ensures
        r.deep_view() == row.deep_view(),
{
    let mut r: Vec<String> = Vec::new();
    let mut i: usize = 0;
    while i < row.len()
        invariant
            i <= row@.len(),
            r.deep_view() =~= row.deep_view().take(i as int),
        decreases row@.len() - i,
    {
        let ghost prev = r.deep_view();
        r.push(row[i].clone());
        assert(r.deep_view() =~= prev.push(row@[i as int]@));
        i = i + 1;
    }
    assert(row.deep_view().take(i as int) =~= row.deep_view());
    r
}

/// A copy of `g` with the cell of grid row `col` at step `step` set to `text`.
fn grid_with_cell(g: &Grid, col: usize, step: usize, text: String) -> (r: Grid)
    requires
        col < g@.len(),
        step < g@[col as int]@.len(),
    ensures
        r.deep_view() == grid_with(g.deep_view(), col as int, step as int, text@),
{
    let ghost target = grid_with(g.deep_view(), col as int, step as int, text@);
    let mut r: Grid = Vec::new();
    let mut i: usize = 0;
    let mut text = Some(text);
    while i < g.len()
        invariant
            i <= g@.len(),
            col < g@.len(),
            step < g@[col as int]@.len(),
            target == grid_with(g.deep_view(), col as int, step as int, target[col as int][step as int]),
            i <= col ==> text == Some(text->0) && text->0@ == target[col as int][step as int],
            r.deep_view() =~= target.take(i as int),
        decreases g@.len() - i,
    {
        let mut row = copy_row(&g[i]);
        if i == col {
            let t = text.take().unwrap();
            assert(row.deep_view().len() == g.deep_view()[i as int].len());
            row.set(step, t);
            assert(row.deep_view() =~= target[i as int]);
        }
        let ghost prev = r.deep_view();
        r.push(row);
        assert(r.deep_view() =~= prev.push(target[i as int]));
        i = i + 1;
    }
    assert(target.take(i as int) =~= target);
    r
}

/// The text that a command puts in its cell.
pub open spec fn command_text(cmd: Command) -> Seq<char> {
    match cmd {
        Command::Insert { input, .. } => input@,
        Command::Delete { .. } => empty_cell(),
    }
}

/// The screen position that a command edits.
pub open spec fn command_at(cmd: Command) -> (int, int) {
    match cmd {
        Command::Insert { x, y, .. } => (x as int, y as int),
        Command::Delete { x, y } => (x as int, y as int),
    }
}

impl App {
    pub open spec fn wf(&self) -> bool {
        app_wf(self@)
    }

    /// An editor in normal mode at the top left, over a blank history.
    pub fn new() -> (r: App)
        ensures
            r.wf(),
            r@.x == 0,
            r@.y == 0,
            r@.active_step == 0,
            r@.mode == EditingMode::Normal,
            r@.register is None,
            r@.cmd_line == Seq::<char>::empty(),
            r@.input == Seq::<char>::empty(),
            r@.history.log == seq![blank_grid()],
            r@.history.pos == 0,
            !r@.exit,
    {
        App {
            x: 0,
            y: 0,
            active_step: 0,
            mode: EditingMode::Normal,
            register: None,
            cmd_line: String::new(),
            curr_input: String::new(),
            history: History::new(),
            exit: false,
        }
    }

    /// The grid on view.
    pub fn get_grid(&self) -> (r: &Grid)
        requires
            self.wf(),
        ensures
            r.deep_view() == visible(self@.history),
    {
        self.history.get_grid()
    }

    /// The cursor's screen column and row.
    pub fn cursor(&self) -> (r: (usize, usize))
        ensures
            r.0 == self@.x,
            r.1 == self@.y,
    {
        (self.x, self.y)
    }

    pub fn mode(&self) -> (r: EditingMode)
        ensures
            r == self@.mode,
    {
        self.mode
    }

    /// The text of the command line.
    pub fn cmd_line(&self) -> (r: &str)
        ensures
            r@ == self@.cmd_line,
    {
        self.cmd_line.as_str()
    }

    /// Whether the quit command was given.
    pub fn should_exit(&self) -> (r: bool)
        ensures
            r == self@.exit,
    {
        self.exit
    }

    /// The step the engine last reported.
    pub fn active_step(&self) -> (r: usize)
        ensures
            r == self@.active_step,
    {
        self.active_step
    }

    /// Records the step the engine reports, for the playhead.
    pub fn set_active_step(&mut self, step: usize)
        requires
            old(self).wf(),
        ensures
            final(self).wf(),
            final(self)@ == (AppModel { active_step: step as int, ..old(self)@ }),
    {
        self.active_step = step;
    }

    /// Shows the mode on the command line, except in command mode, where the
    /// line holds the command being typed.
    pub fn show_mode(&mut self)
        requires
            old(self).wf(),
        ensures
            final(self).wf(),
            old(self)@.mode == EditingMode::Command ==> final(self)@ == old(self)@,
            old(self)@.mode == EditingMode::Normal ==> final(self)@ == (AppModel { cmd_line: "-- NORMAL --"@, ..old(self)@ }),
            old(self)@.mode == EditingMode::Insert ==> final(self)@ == (AppModel { cmd_line: "-- INSERT --"@, ..old(self)@ }),
            old(self)@.mode == EditingMode::Visual ==> final(self)@ == (AppModel { cmd_line: "-- VISUAL --"@, ..old(self)@ }),
    {
        match self.mode {
            EditingMode::Normal => {
                self.cmd_line = String::from_str("-- NORMAL --");
            },
            EditingMode::Insert => {
                self.cmd_line = String::from_str("-- INSERT --");
            },
            EditingMode::Visual => {
                self.cmd_line = String::from_str("-- VISUAL --");
            },
            EditingMode::Command => {},
        }
    }

    fn align_cursor_to_grid(&mut self)
        requires
            old(self).wf(),
        ensures
            final(self).wf(),
            final(self)@ == (AppModel { x: (old(self)@.x / CELL_WIDTH as int) * CELL_WIDTH, ..old(self)@ }),
    {
        self.x = (self.x / CELL_WIDTH) * CELL_WIDTH;
    }

    /// Copies the cell under the cursor into the register.
    fn yank(&mut self)
        requires
            old(self).wf(),
            on_cell(old(self)@),
        ensures
            final(self).wf(),
            final(self)@ == (AppModel { register: Some(cell_under(old(self)@)), ..old(self)@ }),
    {
        let grid = self.history.get_grid();
        assert(grid.deep_view()[(self.x / CELL_WIDTH) as int][self.y - 1] == grid@[(self.x / CELL_WIDTH) as int]@[self.y - 1]@);
        self.register = Some(grid[self.x / CELL_WIDTH][self.y - 1].clone());
    }

    /// Sets one cell of the grid on view and records the result in the
    /// history; returns the decoded state of the new grid.
    pub fn apply(&mut self, cmd: Command) -> (r: State)
        requires
            old(self).wf(),
            0 <= command_at(cmd).0 < grid_rows(),
            1 <= command_at(cmd).1 <= INITIAL_STEP_COUNT,
        ensures
            final(self).wf(),
            final(self)@ == (AppModel {
                history: pushed(
                    old(self)@.history,
                    grid_with(visible(old(self)@.history), command_at(cmd).0, command_at(cmd).1 - 1, command_text(cmd)),
                ),
                ..old(self)@
            }),
            state_view(r@) == decode_grid(visible(final(self)@.history)),
            state_wf(state_view(r@)),
    {
        let grid = self.history.get_grid();
        let ghost g = grid.deep_view();
        assert(g[command_at(cmd).0].len() == INITIAL_STEP_COUNT);
        let state = match cmd {
            Command::Insert { x, y, input } => grid_with_cell(grid, x, y - 1, input),
            Command::Delete { x, y } => {
                let empty = String::from_str("___ ");
                proof {
                    reveal_strlit("___ ");
                    assert(empty@ =~= empty_cell());
                }
                grid_with_cell(grid, x, y - 1, empty)
            },
        };
        proof {
            let n = grid_with(g, command_at(cmd).0, command_at(cmd).1 - 1, command_text(cmd));
            assert forall|r: int| 0 <= r < n.len() implies (#[trigger] n[r]).len() == INITIAL_STEP_COUNT by {
                if r != command_at(cmd).0 {
                    assert(n[r] == g[r]);
                }
            }
            crate::history::lemma_operations_keep_position(self@.history, n);
        }
        self.history.push(state)
    }

    /// Puts the typed input in the cell under the cursor.
    fn update_selected_cell(&mut self) -> (r: State)
        requires
            old(self).wf(),
            on_cell(old(self)@),
        ensures
            final(self).wf(),
            final(self)@ == with_cell(old(self)@, old(self)@.input),
            state_view(r@) == decode_grid(visible(final(self)@.history)),
            state_wf(state_view(r@)),
    {
        let input = self.curr_input.clone();
        let cmd = Command::Insert { x: self.x / CELL_WIDTH, y: self.y, input };
        self.apply(cmd)
    }

    /// The text of the cell under the cursor stepped up or down.
    fn stepped_cell(&self, up: bool) -> (r: Option<String>)
        requires
            self.wf(),
            on_cell(self@),
        ensures
            match r {
                Some(t) => stepped_text(cell_under(self@), up) == Some(t@),
                None => stepped_text(cell_under(self@), up) is None,
            },
    {
        let grid = self.history.get_grid();
        assert(grid.deep_view()[(self.x / CELL_WIDTH) as int][self.y - 1] == grid@[(self.x / CELL_WIDTH) as int]@[self.y - 1]@);
        let value = grid[self.x / CELL_WIDTH][self.y - 1].as_str();
        match parse_in(value, i32::MIN as i64, i32::MAX as i64) {
            Some(n) => Some(write_decimal(if up { n + 1 } else { n - 1 })),
            None => match pitch_class_index(value) {
                Some(i) => Some(
                    pitch_name_text(
                        if up {
                            (i + 1) % PITCH_CLASS_COUNT
                        } else {
                            (i + PITCH_CLASS_COUNT - 1) % PITCH_CLASS_COUNT
                        },
                    ),
                ),
                None => None,
            },
        }
    }

    /// A character in normal or visual mode.
    fn command_key(&mut self, ch: char) -> (r: Option<State>)
        requires
            old(self).wf(),
            old(self)@.mode == EditingMode::Normal || old(self)@.mode == EditingMode::Visual,
        ensures
            final(self).wf(),
            final(self)@ == command_key(old(self)@, ch),
            r is Some <==> publishes(old(self)@, Key::Char(ch)),
            match r {
                Some(s) => state_view(s@) == decode_grid(visible(final(self)@.history))
                    && state_wf(state_view(s@)),
                None => true,
            },
    {
        self.align_cursor_to_grid();
        self.curr_input = String::new();
        assert(self@ == (AppModel { x: (old(self)@.x / CELL_WIDTH as int) * CELL_WIDTH, input: seq![], ..old(self)@ }));
        if ch == 'h' {
            if self.x > 0 {
                self.x = self.x - CELL_WIDTH;
            } else {
                self.x = SCREEN_WIDTH - CELL_WIDTH;
            }
            None
        } else if ch == 'j' {
            if self.y + CELL_HEIGHT < INITIAL_STEP_COUNT {
                self.y = self.y + CELL_HEIGHT;
            } else {
                self.y = 0;
            }
            None
        } else if ch == 'k' {
            if self.y > 0 {
                self.y = self.y - CELL_HEIGHT;
            } else {
                self.y = INITIAL_STEP_COUNT - CELL_HEIGHT;
            }
            None
        } else if ch == 'l' {
            if self.x + CELL_WIDTH < SCREEN_WIDTH {
                self.x = self.x + CELL_WIDTH;
            } else {
                self.x = 0;
            }
            None
        } else if ch == 'u' {
            Some(self.history.undo())
        } else if ch == 'r' {
            Some(self.history.redo())
        } else if ch == 'x' {
            if self.y >= 1 {
                self.yank();
                let cmd = Command::Delete { x: self.x / CELL_WIDTH, y: self.y };
                Some(self.apply(cmd))
            } else {
                None
            }
        } else if ch == ':' {
            self.cmd_line = String::new();
            push_char(&mut self.cmd_line, ':');
            self.mode = EditingMode::Command;
            None
        } else if ch == 'i' {
            self.mode = EditingMode::Insert;
            None
        } else if ch == 'y' {
            if self.y >= 1 {
                self.yank();
            }
            None
        } else if ch == 'v' {
            self.mode = EditingMode::Visual;
            None
        } else if ch == 'p' {
            if self.y >= 1 {
                match &self.register {
                    Some(reg) => {
                        let cmd = Command::Insert { x: self.x / CELL_WIDTH, y: self.y, input: reg.clone() };
                        Some(self.apply(cmd))
                    },
                    None => None,
                }
            } else {
                None
            }
        } else if ch == '+' || ch == '-' {
            if self.y >= 1 {
                match self.stepped_cell(ch == '+') {
                    Some(t) => {
                        let cmd = Command::Insert { x: self.x / CELL_WIDTH, y: self.y, input: t };
                        Some(self.apply(cmd))
                    },
                    None => None,
                }
            } else {
                None
            }
        } else {
            None
        }
    }

    /// Handles one key; returns the decoded state of the grid on view when
    /// the key changed or may have changed it.
    pub fn process_key(&mut self, key: Key) -> (r: Option<State>)
        requires
            old(self).wf(),
        ensures
            final(self).wf(),
            final(self)@ == next_app(old(self)@, key),
            r is Some <==> publishes(old(self)@, key),
            match r {
                Some(s) => state_view(s@) == decode_grid(visible(final(self)@.history))
                    && state_wf(state_view(s@)),
                None => true,
            },
    {
        match key {
            Key::Char(ch) => {
                if self.mode == EditingMode::Normal || self.mode == EditingMode::Visual {
                    self.command_key(ch)
                } else if self.mode == EditingMode::Insert {
                    push_char(&mut self.curr_input, ch);
                    let r = if self.y >= 1 {
                        Some(self.update_selected_cell())
                    } else {
                        None
                    };
                    if self.x + 1 < SCREEN_WIDTH {
                        self.x = self.x + 1;
                    }
                    r
                } else {
                    push_char(&mut self.cmd_line, ch);
                    None
                }
            },
            Key::Esc => {
                if self.mode == EditingMode::Insert || self.mode == EditingMode::Visual {
                    self.mode = EditingMode::Normal;
                }
                None
            },
            Key::Enter => {
                if self.mode == EditingMode::Command {
                    if is_quit_command(self.cmd_line.as_str()) {
                        self.exit = true;
                    }
                    self.cmd_line = String::new();
                    self.mode = EditingMode::Normal;
                }
                None
            },
            Key::Backspace => {
                if self.mode == EditingMode::Command {
                    pop_char(&mut self.cmd_line);
                }
                None
            },
            Key::Other => None,
        }
    }
}

} // verus!
