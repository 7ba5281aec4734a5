//! The pattern the editor works on, and the decoded form that the engine plays.
use vstd::prelude::*;

verus! {

/// Number of tracks in a pattern.
pub const SEQ_TRACK_COUNT: usize = 8;

/// Number of steps in each track.
pub const INITIAL_STEP_COUNT: usize = 16;

/// Rows of cells that each track owns in the grid: the note row, then the
/// harmonics row, then the morph row.
pub const ROWS_PER_TRACK: usize = 3;

/// Velocity given to every decoded note.
pub const DEFAULT_VELOCITY: i8 = 100;

/// The editable pattern: one row of cell texts per grid row, one cell per step.
pub type Grid = Vec<Vec<String>>;

/// A grid as the editor sees it: rows of cells, each cell a text.
pub type GridModel = Seq<Seq<Seq<char>>>;

pub open spec fn grid_rows() -> int {
    (SEQ_TRACK_COUNT * ROWS_PER_TRACK) as int
}

/// A grid of the fixed shape: three rows per track, one cell per step in each row.
pub open spec fn grid_wf(g: GridModel) -> bool {
    &&& g.len() == grid_rows()
    &&& forall|r: int| 0 <= r < g.len() ==> (#[trigger] g[r]).len() == INITIAL_STEP_COUNT
}

/// The text of an empty cell: three fillers and a space, so that every cell
/// of a monospace display is four columns wide.
pub open spec fn empty_cell() -> Seq<char> {
    seq!['_', '_', '_', ' ']
}

/// Optional knobs that a note sets on its voice, in hundredths
/// (`50` stands for one half). An absent knob keeps the voice's own value.
#[derive(Clone, Copy, Debug, PartialEq, Eq, Structural)]
pub struct Parameters {
    pub engine: Option<i8>,
    pub harmonics: Option<i8>,
    pub morph: Option<i8>,
    pub timbre: Option<i8>,
}

impl Parameters {
    pub fn new() -> (r: Parameters)
        ensures
            r.engine is None,
            r.harmonics is None,
            r.morph is None,
            r.timbre is None,
    {
        Parameters { engine: None, harmonics: None, morph: None, timbre: None }
    }
}

/// A note of a decoded track: the step it stands on, its pitch, its velocity
/// and the knobs it sets.
#[derive(Clone, Copy, Debug, PartialEq, Eq, Structural)]
pub struct Note {
    pub timestamp: usize,
    pub pitch: i8,
    pub velocity: i8,
    pub parameters: Parameters,
}

impl Note {
    pub fn new(timestamp: usize, pitch: i8, velocity: i8) -> (r: Note)
        ensures
            r.timestamp == timestamp,
            r.pitch == pitch,
            r.velocity == velocity,
            r.parameters == (Parameters { engine: None, harmonics: None, morph: None, timbre: None }),
    {
        Note { timestamp, pitch, velocity, parameters: Parameters::new() }
    }
}

/// One decoded track: a slot per step, each a note or a rest.
#[derive(Clone, Debug)]
pub struct Track {
    pub notes: Vec<Option<Note>>,
}

/// The decoded state of a whole pattern, one entry per track.
pub type State = Vec<Track>;

/// A decoded state as a sequence of tracks, each a sequence of slots.
pub open spec fn state_view(s: Seq<Track>) -> Seq<Seq<Option<Note>>> {
    s.map_values(|t: Track| t.notes@)
}

/// A decoded state of the fixed shape.
pub open spec fn state_wf(s: Seq<Seq<Option<Note>>>) -> bool {
    &&& s.len() == SEQ_TRACK_COUNT
    &&& forall|t: int| 0 <= t < s.len() ==> (#[trigger] s[t]).len() == INITIAL_STEP_COUNT
}

} // verus!
