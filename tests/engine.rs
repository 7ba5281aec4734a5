use sequencer::engine::{apply_parameters, Engine, Patch, VoiceKind, PASS_LENGTH, SAMPLES_PER_STEP};
use sequencer::history::History;
use sequencer::pattern::{Note, Parameters};

fn state_with(cells: &[(usize, usize, &str)]) -> sequencer::pattern::State {
    let h = History::new();
    let mut g = h.get_grid().clone();
    for (row, step, text) in cells {
        g[*row][*step] = text.to_string();
    }
    History::to_state(g)
}

#[test]
fn voices_by_track() {
    let e = Engine::new();
    let kinds = e.voice_kinds();
    assert_eq!(kinds.len(), 8);
    assert_eq!(kinds[0], VoiceKind::Kick);
    assert_eq!(kinds[1], VoiceKind::Snare);
    assert_eq!(kinds[2], VoiceKind::Hihat);
    assert_eq!(kinds[7], VoiceKind::Synth);
}

#[test]
fn step_is_reported_when_it_changes() {
    let mut e = Engine::new();
    for _ in 1..SAMPLES_PER_STEP {
        let t = e.tick();
        assert_eq!(t.step, None);
        assert!(t.triggers.is_empty());
    }
    let t = e.tick();
    assert_eq!(t.step, Some(1));
    assert_eq!(e.reported_step(), 1);
    assert_eq!(e.tick().step, None);
}

#[test]
fn note_fires_once_per_pass_at_its_step() {
    let mut e = Engine::new();
    e.set_state(state_with(&[(9, 2, "C2"), (10, 2, "80")]));
    let mut fired = Vec::new();
    for i in 1..=(2 * PASS_LENGTH as u64) {
        let t = e.tick();
        for trig in t.triggers {
            fired.push((i, trig));
        }
    }
    assert_eq!(fired.len(), 2);
    let (at, trig) = fired[0];
    assert_eq!(at, 2 * SAMPLES_PER_STEP as u64);
    assert_eq!(fired[1].0, at + PASS_LENGTH as u64);
    assert_eq!(trig.track, 3);
    assert_eq!(trig.step, 2);
    assert_eq!(trig.pitch, 36);
    assert_eq!(trig.velocity, 100);
    assert_eq!(trig.patch, Patch { engine: 1, harmonics: 80, morph: 50, timbre: 50 });
}

#[test]
fn step_zero_fires_after_wrap() {
    let mut e = Engine::new();
    e.set_state(state_with(&[(0, 0, "C1"), (3, 0, "D1")]));
    let mut count = 0;
    for i in 1..=(PASS_LENGTH as u64) {
        let t = e.tick();
        if !t.triggers.is_empty() {
            assert_eq!(i, PASS_LENGTH as u64);
            assert_eq!(t.step, Some(0));
            assert_eq!(t.triggers.len(), 2);
            assert_eq!(t.triggers[0].track, 0);
            assert_eq!(t.triggers[1].track, 1);
            count += 1;
        }
    }
    assert_eq!(count, 1);
}

#[test]
fn overlay_keeps_absent_knobs() {
    let d = Patch { engine: 1, harmonics: 50, morph: 50, timbre: 50 };
    let mut p = Parameters::new();
    p.morph = Some(10);
    assert_eq!(apply_parameters(d, p), Patch { engine: 1, harmonics: 50, morph: 10, timbre: 50 });
    p.engine = Some(-20);
    p.timbre = Some(99);
    assert_eq!(apply_parameters(d, p), Patch { engine: 0, harmonics: 50, morph: 10, timbre: 99 });
    assert_eq!(apply_parameters(d, Parameters::new()), d);
}

#[test]
fn note_constructor() {
    let n = Note::new(4, 60, 90);
    assert_eq!(n.timestamp, 4);
    assert_eq!(n.pitch, 60);
    assert_eq!(n.velocity, 90);
    assert_eq!(n.parameters, Parameters::new());
}
