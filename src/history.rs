//! The undo history of the pattern, and the decoding of a pattern into the
//! state that the engine plays.
use vstd::prelude::*;
use vstd::string::StringExecFns;
use crate::grammar::{decode_cells, decode_knob, decode_pitch};
use crate::pattern::{
    empty_cell, grid_rows, grid_wf, state_view, state_wf, Grid, GridModel, Note, Parameters, State,
    Track, DEFAULT_VELOCITY, INITIAL_STEP_COUNT, ROWS_PER_TRACK, SEQ_TRACK_COUNT,
};

verus! {

/// The slots of track `t`: step `s` decodes the cells of step `s` in the
/// track's three rows.
pub open spec fn decode_track(g: GridModel, t: int) -> Seq<Option<Note>> {
    let r = t * ROWS_PER_TRACK;
    Seq::new(g[r].len(), |s: int| decode_cells(g[r][s], g[r + 1][s], g[r + 2][s], s))
}

/// The decoded state of a grid: one track for each three rows.
pub open spec fn decode_grid(g: GridModel) -> Seq<Seq<Option<Note>>> {
    Seq::new(g.len() / (ROWS_PER_TRACK as nat), |t: int| decode_track(g, t))
}

/// A grid whose every cell is empty.
pub open spec fn blank_grid() -> GridModel {
    Seq::new(grid_rows() as nat, |r: int| Seq::new(INITIAL_STEP_COUNT as nat, |s: int| empty_cell()))
}

/// The history as a log of grids and the position of the one on view.
pub struct HistoryModel {
    pub log: Seq<GridModel>,
    pub pos: int,
}

/// The position lies in the log, and every grid of the log has the fixed shape.
pub open spec fn history_wf(h: HistoryModel) -> bool {
    &&& 0 <= h.pos < h.log.len()
    &&& forall|i: int| 0 <= i < h.log.len() ==> grid_wf(#[trigger] h.log[i])
}

/// The grid on view.
pub open spec fn visible(h: HistoryModel) -> GridModel {
    h.log[h.pos]
}

/// The log after a new grid is recorded: every grid after the position is
/// dropped, the new one is appended and comes on view.
pub open spec fn pushed(h: HistoryModel, g: GridModel) -> HistoryModel {
    HistoryModel { log: h.log.take(h.pos + 1).push(g), pos: h.pos + 1 }
}

/// The log after an undo: one step back, unless already at the start.
pub open spec fn undone(h: HistoryModel) -> HistoryModel {
    if h.pos > 0 {
        HistoryModel { log: h.log, pos: h.pos - 1 }
    } else {
        h
    }
}

/// The log after a redo: one step forward, unless already at the newest grid.
pub open spec fn redone(h: HistoryModel) -> HistoryModel {
    if h.pos < h.log.len() - 1 {
        HistoryModel { log: h.log, pos: h.pos + 1 }
    } else {
        h
    }
}

/// A linear undo log of whole grids.
pub struct History {
    history: Vec<Grid>,
    pos: usize,
}

impl View for History {
    type V = HistoryModel;

    closed spec fn view(&self) -> HistoryModel {
        HistoryModel { log: self.history.deep_view(), pos: self.pos as int }
    }
}

impl History {
    pub open spec fn wf(&self) -> bool {
        history_wf(self@)
    }

    /// A history that holds one blank grid.
    pub fn new() -> (r: History)
        ensures
            r.wf(),
            r@.log == seq![blank_grid()],
            r@.pos == 0,
    {
        let mut grid: Grid = Vec::new();
        let mut r: usize = 0;
        while r < SEQ_TRACK_COUNT * ROWS_PER_TRACK
            invariant
                r <= grid_rows(),
                grid.deep_view() =~= blank_grid().take(r as int),
            decreases grid_rows() - r,
        {
            let mut row: Vec<String> = Vec::new();
            let mut s: usize = 0;
            while s < INITIAL_STEP_COUNT
                invariant
                    s <= INITIAL_STEP_COUNT,
                    row.deep_view() =~= Seq::new(s as nat, |i: int| empty_cell()),
                decreases INITIAL_STEP_COUNT - s,
            {
                let cell = String::from_str("___ ");
                proof {
                    reveal_strlit("___ ");
                    assert(cell@ =~= empty_cell());
                }
                let ghost prev = row.deep_view();
                row.push(cell);
                assert(row.deep_view() =~= prev.push(empty_cell()));
                s = s + 1;
            }
            assert(row.deep_view() =~= blank_grid()[r as int]);
            let ghost prev = grid.deep_view();
            grid.push(row);
            assert(grid.deep_view() =~= prev.push(blank_grid()[r as int]));
            r = r + 1;
        }
        let mut history: Vec<Grid> = Vec::new();
        history.push(grid);
        let h = History { history, pos: 0 };
        assert(h@.log =~~= seq![blank_grid()]);
        h
    }

    /// The grid on view.
    pub fn get_grid(&self) -> (r: &Grid)
        requires
            self.wf(),
        ensures
            r.deep_view() == visible(self@),
    {
        &self.history[self.pos]
    }

    /// Records `grid` after the grid on view, dropping every grid that a redo
    /// could have reached, and returns its decoded state for the engine.
    pub fn push(&mut self, grid: Grid) -> (r: State)
        requires
            old(self).wf(),
            grid_wf(grid.deep_view()),
        ensures
            final(self).wf(),
            final(self)@ == pushed(old(self)@, grid.deep_view()),
            state_view(r@) == decode_grid(grid.deep_view()),
            state_wf(state_view(r@)),
    {
        let state = Self::decode(&grid);
        let ghost before = self.history.deep_view();
        let ghost g = grid.deep_view();
        let len = self.history.len();
        self.history.truncate(self.pos + 1);
        self.history.push(grid);
        self.pos = self.pos + 1;
        assert(self.history.deep_view() =~= before.take(old(self).pos + 1).push(g));
        proof {
            assert forall|i: int| 0 <= i < self@.log.len() implies grid_wf(#[trigger] self@.log[i]) by {
                if i < old(self).pos + 1 {
                    assert(self@.log[i] == before[i]);
                }
            }
        }
        state
    }

    /// Moves one grid back, unless at the oldest, and returns the decoded
    /// state of the grid then on view.
    pub fn undo(&mut self) -> (r: State)
        requires
            old(self).wf(),
        ensures
            final(self).wf(),
            final(self)@ == undone(old(self)@),
            state_view(r@) == decode_grid(visible(final(self)@)),
            state_wf(state_view(r@)),
    {
        if self.pos > 0 {
            self.pos = self.pos - 1;
        }
        assert(self@.log[self.pos as int] == self.history@[self.pos as int].deep_view());
        Self::decode(&self.history[self.pos])
    }

    /// Moves one grid forward, unless at the newest, and returns the decoded
    /// state of the grid then on view.
    pub fn redo(&mut self) -> (r: State)
        requires
            old(self).wf(),
        ensures
            final(self).wf(),
            final(self)@ == redone(old(self)@),
            state_view(r@) == decode_grid(visible(final(self)@)),
            state_wf(state_view(r@)),
    {
        if self.pos < self.history.len() - 1 {
            self.pos = self.pos + 1;
        }
        assert(self@.log[self.pos as int] == self.history@[self.pos as int].deep_view());
        Self::decode(&self.history[self.pos])
    }

    /// The decoded state of a grid of the fixed shape.
    pub fn to_state(grid: Grid) -> (r: State)
        requires
            grid_wf(grid.deep_view()),
        ensures
            state_view(r@) == decode_grid(grid.deep_view()),
            state_wf(state_view(r@)),
    {
        Self::decode(&grid)
    }

    fn decode(grid: &Grid) -> (r: State)
        requires
            grid_wf(grid.deep_view()),
        ensures
            state_view(r@) == decode_grid(grid.deep_view()),
            state_wf(state_view(r@)),
    {
        let ghost g = grid.deep_view();
        let mut state: State = Vec::new();
        let mut t: usize = 0;
        while t < SEQ_TRACK_COUNT
            invariant
                t <= SEQ_TRACK_COUNT,
                g == grid.deep_view(),
                grid_wf(g),
                state_view(state@) =~= decode_grid(g).take(t as int),
            decreases SEQ_TRACK_COUNT - t,
        {
            let r = t * ROWS_PER_TRACK;
            let notes_row = &grid[r];
            let harmonics_row = &grid[r + 1];
            let morph_row = &grid[r + 2];
            assert(g[r as int].len() == INITIAL_STEP_COUNT);
            assert(g[r + 1].len() == INITIAL_STEP_COUNT);
            assert(g[r + 2].len() == INITIAL_STEP_COUNT);
            let mut notes: Vec<Option<Note>> = Vec::new();
            let mut s: usize = 0;
            while s < INITIAL_STEP_COUNT
                invariant
                    s <= INITIAL_STEP_COUNT,
                    g == grid.deep_view(),
                    grid_wf(g),
                    r == t * ROWS_PER_TRACK,
                    t < SEQ_TRACK_COUNT,
                    notes_row == grid@[r as int],
                    harmonics_row == grid@[r + 1],
                    morph_row == grid@[r + 2],
                    notes@ =~= decode_track(g, t as int).take(s as int),
                decreases INITIAL_STEP_COUNT - s,
            {
                assert(g[r as int].len() == INITIAL_STEP_COUNT);
                assert(g[r + 1].len() == INITIAL_STEP_COUNT);
                assert(g[r + 2].len() == INITIAL_STEP_COUNT);
                let note = Self::decode_step(
                    notes_row[s].as_str(),
                    harmonics_row[s].as_str(),
                    morph_row[s].as_str(),
                    s,
                );
                notes.push(note);
                s = s + 1;
            }
            assert(notes@ =~= decode_track(g, t as int));
            let ghost before = state@;
            state.push(Track { notes });
            assert(state_view(state@) =~= state_view(before).push(decode_track(g, t as int)));
            t = t + 1;
        }
        assert(decode_grid(g).take(SEQ_TRACK_COUNT as int) =~= decode_grid(g));
        state
    }

    /// The note that the three cells of step `note_index` decode to: the note
    /// cell, the harmonics cell and the morph cell, in that order.
    pub fn parse_input(input: &Vec<String>, note_index: usize) -> (r: Option<Note>)
        requires
            input@.len() == ROWS_PER_TRACK,
        ensures
            r == decode_cells(input@[0]@, input@[1]@, input@[2]@, note_index as int),
    {
        Self::decode_step(input[0].as_str(), input[1].as_str(), input[2].as_str(), note_index)
    }

    fn decode_step(note: &str, harmonics: &str, morph: &str, step: usize) -> (r: Option<Note>)
        ensures
            r == decode_cells(note@, harmonics@, morph@, step as int),
    {
        match decode_pitch(note) {
            Some(pitch) => {
                let mut parameters = Parameters::new();
                parameters.harmonics = decode_knob(harmonics);
                parameters.morph = decode_knob(morph);
                Some(Note { timestamp: step, pitch, velocity: DEFAULT_VELOCITY, parameters })
            },
            None => None,
        }
    }
}

/// Every operation keeps the position inside the log: after any sequence of
/// pushes, undos and redos from a well-formed history, `0 <= pos < len`.
pub proof fn lemma_operations_keep_position(h: HistoryModel, g: GridModel)
    requires
        history_wf(h),
        grid_wf(g),
    ensures
        history_wf(pushed(h, g)),
        history_wf(undone(h)),
        history_wf(redone(h)),
{
    let p = pushed(h, g);
    assert forall|i: int| 0 <= i < p.log.len() implies grid_wf(#[trigger] p.log[i]) by {
        if i <= h.pos {
            assert(p.log[i] == h.log[i]);
        }
    }
}

/// An undo followed at once by a redo brings back the grid that was on view,
/// and the whole history with it. The one exception is an undo at the oldest
/// grid of a log that holds a newer one: the undo does nothing and the redo
/// moves forward.
pub proof fn lemma_undo_then_redo(h: HistoryModel)
    requires
        history_wf(h),
        !(h.pos == 0 && h.log.len() > 1),
    ensures
        redone(undone(h)) == h,
        visible(redone(undone(h))) == visible(h),
{
}

/// A push drops every grid after the position before it appends: whatever
/// undos came before it, the new grid is the newest, and a redo after it
/// does nothing.
pub proof fn lemma_push_discards_redo(h: HistoryModel, g: GridModel)
    requires
        history_wf(h),
        grid_wf(g),
    ensures
        pushed(h, g).log == h.log.take(h.pos + 1).push(g),
        pushed(h, g).pos == pushed(h, g).log.len() - 1,
        visible(pushed(h, g)) == g,
        redone(pushed(h, g)) == pushed(h, g),
{
}

} // verus!
