use sequencer::history::History;
use sequencer::pattern::{Grid, INITIAL_STEP_COUNT, SEQ_TRACK_COUNT};

fn with_cell(h: &History, row: usize, step: usize, text: &str) -> Grid {
    let mut g = h.get_grid().clone();
    g[row][step] = text.to_string();
    g
}

#[test]
fn new_history_is_blank() {
    let h = History::new();
    let g = h.get_grid();
    assert_eq!(g.len(), SEQ_TRACK_COUNT * 3);
    for row in g {
        assert_eq!(row.len(), INITIAL_STEP_COUNT);
        for cell in row {
            assert_eq!(cell, "___ ");
        }
    }
}

#[test]
fn push_publishes_decoded_state() {
    let mut h = History::new();
    let g = with_cell(&h, 3, 2, "C3");
    let state = h.push(g);
    assert_eq!(state.len(), SEQ_TRACK_COUNT);
    let note = state[1].notes[2].expect("a note");
    assert_eq!(note.pitch, 48);
    assert_eq!(note.timestamp, 2);
    assert_eq!(state[0].notes[2], None);
    assert_eq!(h.get_grid()[3][2], "C3");
}

#[test]
fn undo_then_redo_restores_view() {
    let mut h = History::new();
    let g1 = with_cell(&h, 0, 0, "C");
    h.push(g1);
    let g2 = with_cell(&h, 0, 1, "D");
    h.push(g2.clone());
    let back = h.undo();
    assert_eq!(h.get_grid()[0][1], "___ ");
    assert_eq!(back[0].notes[1], None);
    let forward = h.redo();
    assert_eq!(h.get_grid(), &g2);
    assert_eq!(forward[0].notes[1].map(|n| n.pitch), Some(38));
}

#[test]
fn undo_at_start_and_redo_at_tip_do_nothing() {
    let mut h = History::new();
    let state = h.undo();
    assert_eq!(state[0].notes[0], None);
    assert_eq!(h.get_grid()[0][0], "___ ");
    let g = with_cell(&h, 0, 0, "E");
    h.push(g.clone());
    h.redo();
    assert_eq!(h.get_grid(), &g);
}

#[test]
fn push_after_undo_discards_redo() {
    let mut h = History::new();
    let g1 = with_cell(&h, 0, 0, "C");
    h.push(g1);
    let g2 = with_cell(&h, 0, 1, "D");
    h.push(g2);
    h.undo();
    h.undo();
    let g3 = with_cell(&h, 0, 2, "E");
    h.push(g3.clone());
    h.redo();
    assert_eq!(h.get_grid(), &g3);
    h.undo();
    assert_eq!(h.get_grid()[0][0], "___ ");
}

#[test]
fn to_state_reads_three_rows_per_track() {
    let h = History::new();
    let mut g = h.get_grid().clone();
    g[21][15] = "10".to_string();
    g[22][15] = "30".to_string();
    g[23][15] = "70".to_string();
    let state = History::to_state(g);
    let n = state[7].notes[15].expect("a note");
    assert_eq!(n.pitch, 10);
    assert_eq!(n.parameters.harmonics, Some(30));
    assert_eq!(n.parameters.morph, Some(70));
}

#[test]
fn undo_at_oldest_then_redo_moves_forward() {
    let mut h = History::new();
    let g1 = with_cell(&h, 0, 0, "C");
    h.push(g1.clone());
    h.undo();
    let before = h.get_grid().clone();
    h.undo();
    h.redo();
    assert_ne!(h.get_grid(), &before);
    assert_eq!(h.get_grid(), &g1);
}
