//! The transport clock and the scheduling of voice triggers.
//!
//! The engine keeps the decoded state it was last given and a clock counted
//! in samples. Each tick moves the clock one sample on, wrapping at the end
//! of the pattern, and reports the notes whose step begins at that sample,
//! with the patch that each voice must play them with. Rendering and mixing
//! the voices is left to the caller.
use vstd::prelude::*;
use crate::pattern::{state_view, state_wf, Note, Parameters, State, Track, INITIAL_STEP_COUNT, SEQ_TRACK_COUNT};

verus! {

/// Samples that the clock spends on each step.
pub const SAMPLES_PER_STEP: u32 = 16384;

/// Samples in one pass of the clock over the whole pattern.
pub const PASS_LENGTH: u32 = 262144;

/// Engine a synthesis voice starts with.
pub const DEFAULT_ENGINE: usize = 1;

/// Knob value, in hundredths, that a voice starts with.
pub const DEFAULT_KNOB: i8 = 50;

/// The kind of voice bound to a track.
#[derive(Clone, Copy, Debug, PartialEq, Eq, Structural)]
pub enum VoiceKind {
    Kick,
    Snare,
    Hihat,
    Synth,
}

/// The settings a voice plays a note with; knobs in hundredths.
#[derive(Clone, Copy, Debug, PartialEq, Eq, Structural)]
pub struct Patch {
    pub engine: usize,
    pub harmonics: i8,
    pub morph: i8,
    pub timbre: i8,
}

/// A voice to trigger: the track and step of the note, what to play, and the
/// patch to play it with.
#[derive(Clone, Copy, Debug, PartialEq, Eq, Structural)]
pub struct Trigger {
    pub track: usize,
    pub step: usize,
    pub pitch: i8,
    pub velocity: i8,
    pub patch: Patch,
}

/// What one tick reports: the whole step, when it differs from the one last
/// reported, and the voices to trigger.
pub struct Tick {
    pub step: Option<usize>,
    pub triggers: Vec<Trigger>,
}

/// The engine index that an engine knob selects: the whole part of the knob,
/// and no engine below the first.
pub open spec fn engine_index(v: i8) -> usize {
    if v <= 0 {
        0
    } else {
        (v / 100) as usize
    }
}

/// A voice's patch for a note: the track's defaults, with each knob that the
/// note sets put in place of the default and the others left as they are.
pub open spec fn overlay(d: Patch, p: Parameters) -> Patch {
    Patch {
        engine: match p.engine {
            Some(v) => engine_index(v),
            None => d.engine,
        },
        harmonics: match p.harmonics {
            Some(v) => v,
            None => d.harmonics,
        },
        morph: match p.morph {
            Some(v) => v,
            None => d.morph,
        },
        timbre: match p.timbre {
            Some(v) => v,
            None => d.timbre,
        },
    }
}

/// The clock position after one more sample.
pub open spec fn next_position(pos: int) -> int {
    (pos + 1) % (PASS_LENGTH as int)
}

/// The clock position after `i` ticks from `start`.
pub open spec fn position_after(start: int, i: nat) -> int
    decreases i,
{
    if i == 0 {
        start
    } else {
        next_position(position_after(start, (i - 1) as nat))
    }
}

/// The whole step that a clock position lies in.
pub open spec fn step_of(pos: int) -> int {
    pos / (SAMPLES_PER_STEP as int)
}

/// Whether a clock position is the first sample of step `k`.
pub open spec fn fires(pos: int, k: int) -> bool {
    pos % (SAMPLES_PER_STEP as int) == 0 && pos / (SAMPLES_PER_STEP as int) == k
}

pub open spec fn trigger_of(t: int, k: int, n: Note, d: Patch) -> Trigger {
    Trigger {
        track: t as usize,
        step: k as usize,
        pitch: n.pitch,
        velocity: n.velocity,
        patch: overlay(d, n.parameters),
    }
}

/// The triggers of the notes at step `k` of the first `n` tracks, in track order.
pub open spec fn due_at_step(
    tracks: Seq<Seq<Option<Note>>>,
    defaults: Seq<Patch>,
    k: int,
    n: int,
) -> Seq<Trigger>
    decreases n,
{
    if n <= 0 {
        seq![]
    } else {
        let before = due_at_step(tracks, defaults, k, n - 1);
        match tracks[n - 1][k] {
            Some(note) => before.push(trigger_of(n - 1, k, note, defaults[n - 1])),
            None => before,
        }
    }
}

/// The triggers that a clock position calls for: at the first sample of a
/// step, one for each track with a note at that step; none elsewhere.
pub open spec fn due_triggers(tracks: Seq<Seq<Option<Note>>>, defaults: Seq<Patch>, pos: int) -> Seq<Trigger> {
    if pos % (SAMPLES_PER_STEP as int) == 0 {
        due_at_step(tracks, defaults, step_of(pos), tracks.len() as int)
    } else {
        seq![]
    }
}

/// Whether the note at step `k` of track `t` is among `tr`.
pub open spec fn triggers_note(tr: Seq<Trigger>, t: int, k: int) -> bool {
    exists|i: int| 0 <= i < tr.len() && (#[trigger] tr[i]).track == t && tr[i].step == k
}

/// The engine as the decoded state it plays, the voices and default patches
/// of its tracks, and its clock.
pub struct EngineModel {
    pub tracks: Seq<Seq<Option<Note>>>,
    pub voices: Seq<VoiceKind>,
    pub defaults: Seq<Patch>,
    pub position: int,
    pub reported_step: int,
}

pub struct Engine {
    voices: Vec<VoiceKind>,
    defaults: Vec<Patch>,
    tracks: State,
    position: u32,
    reported_step: usize,
}

impl View for Engine {
    type V = EngineModel;

    closed spec fn view(&self) -> EngineModel {
        EngineModel {
            tracks: state_view(self.tracks@),
            voices: self.voices@,
            defaults: self.defaults@,
            position: self.position as int,
            reported_step: self.reported_step as int,
        }
    }
}

/// Apply a note's knobs over a track's default patch.
pub fn apply_parameters(defaults: Patch, p: Parameters) -> (r: Patch)
    ensures
        r == overlay(defaults, p),
{
    let mut patch = defaults;
    if let Some(v) = p.engine {
        patch.engine = if v <= 0 { 0 } else { (v / 100) as usize };
    }
    if let Some(v) = p.harmonics {
        patch.harmonics = v;
    }
    if let Some(v) = p.morph {
        patch.morph = v;
    }
    if let Some(v) = p.timbre {
        patch.timbre = v;
    }
    patch
}

impl Engine {
    pub open spec fn wf(&self) -> bool {
        &&& state_wf(self@.tracks)
        &&& self@.voices.len() == SEQ_TRACK_COUNT
        &&& self@.defaults.len() == SEQ_TRACK_COUNT
        &&& 0 <= self@.position < PASS_LENGTH
        &&& 0 <= self@.reported_step < INITIAL_STEP_COUNT
    }

    /// An engine with the kick, snare and hi-hat on the first three tracks
    /// and synthesis voices on the others, every track empty, and the clock
    /// at the start.
    pub fn new() -> (r: Engine)
        ensures
            r.wf(),
            r@.position == 0,
            r@.reported_step == 0,
            forall|t: int, s: int|
                0 <= t < SEQ_TRACK_COUNT && 0 <= s < INITIAL_STEP_COUNT ==> r@.tracks[t][s] is None,
            r@.voices == seq![
                VoiceKind::Kick,
                VoiceKind::Snare,
                VoiceKind::Hihat,
                VoiceKind::Synth,
                VoiceKind::Synth,
                VoiceKind::Synth,
                VoiceKind::Synth,
                VoiceKind::Synth,
            ],
            forall|t: int|
                0 <= t < SEQ_TRACK_COUNT ==> r@.defaults[t] == (Patch {
                    engine: DEFAULT_ENGINE,
                    harmonics: DEFAULT_KNOB,
                    morph: DEFAULT_KNOB,
                    timbre: DEFAULT_KNOB,
                }),
    {
        let voices = vec![
            VoiceKind::Kick,
            VoiceKind::Snare,
            VoiceKind::Hihat,
            VoiceKind::Synth,
            VoiceKind::Synth,
            VoiceKind::Synth,
            VoiceKind::Synth,
            VoiceKind::Synth,
        ];
        let default_patch = Patch {
            engine: DEFAULT_ENGINE,
            harmonics: DEFAULT_KNOB,
            morph: DEFAULT_KNOB,
            timbre: DEFAULT_KNOB,
        };
        let mut defaults: Vec<Patch> = Vec::new();
        let mut tracks: State = Vec::new();
        let mut t: usize = 0;
        while t < SEQ_TRACK_COUNT
            invariant
                t <= SEQ_TRACK_COUNT,
                defaults@.len() == t,
                tracks@.len() == t,
                forall|i: int| 0 <= i < t ==> defaults@[i] == default_patch,
                forall|i: int| 0 <= i < t ==> (#[trigger] tracks@[i]).notes@.len() == INITIAL_STEP_COUNT,
                forall|i: int, s: int|
                    0 <= i < t && 0 <= s < INITIAL_STEP_COUNT ==> #[trigger] tracks@[i].notes@[s] is None,
            decreases SEQ_TRACK_COUNT - t,
        {
            let mut notes: Vec<Option<Note>> = Vec::new();
            let mut s: usize = 0;
            while s < INITIAL_STEP_COUNT
                invariant
                    s <= INITIAL_STEP_COUNT,
                    notes@.len() == s,
                    forall|i: int| 0 <= i < s ==> notes@[i] is None,
                decreases INITIAL_STEP_COUNT - s,
            {
                notes.push(None);
                s = s + 1;
            }
            defaults.push(default_patch);
            tracks.push(Track { notes });
            t = t + 1;
        }
        let r = Engine { voices, defaults, tracks, position: 0, reported_step: 0 };
        assert(r@.voices =~= seq![
            VoiceKind::Kick,
            VoiceKind::Snare,
            VoiceKind::Hihat,
            VoiceKind::Synth,
            VoiceKind::Synth,
            VoiceKind::Synth,
            VoiceKind::Synth,
            VoiceKind::Synth,
        ]);
        r
    }

    /// The kind of voice bound to each track.
    pub fn voice_kinds(&self) -> (r: Vec<VoiceKind>)
        ensures
            r@ == self@.voices,
    {
        let mut r: Vec<VoiceKind> = Vec::new();
        let mut i: usize = 0;
        while i < self.voices.len()
            invariant
                i <= self.voices@.len(),
                r@ =~= self.voices@.take(i as int),
            decreases self.voices@.len() - i,
        {
            r.push(self.voices[i]);
            i = i + 1;
        }
        assert(self.voices@.take(i as int) =~= self.voices@);
        r
    }

    /// The whole step that the engine last reported, for the playhead.
    pub fn reported_step(&self) -> (r: usize)
        ensures
            r == self@.reported_step,
    {
        self.reported_step
    }

    /// Installs a new decoded state whole; the clock goes on where it was.
    pub fn set_state(&mut self, state: State)
        requires
            old(self).wf(),
            state_wf(state_view(state@)),
        ensures
            final(self).wf(),
            final(self)@ == (EngineModel { tracks: state_view(state@), ..old(self)@ }),
    {
        self.tracks = state;
    }

    /// Moves the clock one sample on, wrapping at the end of the pass, and
    /// reports the new whole step if it changed and the notes whose step
    /// begins at this sample.
    pub fn tick(&mut self) -> (r: Tick)
        requires
            old(self).wf(),
        ensures
            final(self).wf(),
            final(self)@.tracks == old(self)@.tracks,
            final(self)@.voices == old(self)@.voices,
            final(self)@.defaults == old(self)@.defaults,
            final(self)@.position == next_position(old(self)@.position),
            final(self)@.reported_step == step_of(final(self)@.position),
            r.step == if step_of(final(self)@.position) != old(self)@.reported_step {
                Some(step_of(final(self)@.position) as usize)
            } else {
                None::<usize>
            },
            r.triggers@ == due_triggers(old(self)@.tracks, old(self)@.defaults, final(self)@.position),
    {
        self.increment_time();
        let step = (self.position / SAMPLES_PER_STEP) as usize;
        let reported = if step != self.reported_step {
            self.reported_step = step;
            Some(step)
        } else {
            None
        };
        let mut triggers: Vec<Trigger> = Vec::new();
        if self.position % SAMPLES_PER_STEP == 0 {
            let ghost tracks = self@.tracks;
            let ghost defaults = self@.defaults;
            let mut t: usize = 0;
            while t < SEQ_TRACK_COUNT
                invariant
                    t <= SEQ_TRACK_COUNT,
                    step < INITIAL_STEP_COUNT,
                    tracks == state_view(self.tracks@),
                    defaults == self.defaults@,
                    state_wf(tracks),
                    defaults.len() == SEQ_TRACK_COUNT,
                    triggers@ == due_at_step(tracks, defaults, step as int, t as int),
                decreases SEQ_TRACK_COUNT - t,
            {
                assert(self.tracks@[t as int].notes@ == tracks[t as int]);
                if let Some(note) = self.tracks[t].notes[step] {
                    let patch = apply_parameters(self.defaults[t], note.parameters);
                    triggers.push(
                        Trigger {
                            track: t,
                            step,
                            pitch: note.pitch,
                            velocity: note.velocity,
                            patch,
                        },
                    );
                }
                t = t + 1;
            }
        }
        Tick { step: reported, triggers }
    }

    fn increment_time(&mut self)
        requires
            old(self).wf(),
        ensures
            final(self).wf(),
            final(self)@ == (EngineModel { position: next_position(old(self)@.position), ..old(self)@ }),
    {
        if self.position + 1 >= PASS_LENGTH {
            self.position = 0;
        } else {
            self.position = self.position + 1;
        }
    }
}

/// The triggers at step `k` of the first `n` tracks all carry step `k` and a
/// track below `n`, and track `t` is among them exactly when it has a note there.
proof fn lemma_due_at_step_members(tracks: Seq<Seq<Option<Note>>>, defaults: Seq<Patch>, k: int, n: int, t: int)
    requires
        0 <= n <= tracks.len(),
        0 <= k,
        0 <= t,
        k < INITIAL_STEP_COUNT,
        state_wf(tracks),
        defaults.len() == tracks.len(),
    ensures
        forall|i: int| 0 <= i < due_at_step(tracks, defaults, k, n).len()
            ==> (#[trigger] due_at_step(tracks, defaults, k, n)[i]).step == k
                && due_at_step(tracks, defaults, k, n)[i].track < n,
        triggers_note(due_at_step(tracks, defaults, k, n), t, k) <==> (t < n && tracks[t][k] is Some),
    decreases n,
{
    if n > 0 {
        lemma_due_at_step_members(tracks, defaults, k, n - 1, t);
        let before = due_at_step(tracks, defaults, k, n - 1);
        let all = due_at_step(tracks, defaults, k, n);
        if let Some(note) = tracks[n - 1][k] {
            assert(all == before.push(trigger_of(n - 1, k, note, defaults[n - 1])));
            assert(forall|i: int| 0 <= i < before.len() ==> all[i] == before[i]);
            if t == n - 1 {
                assert(all[before.len() as int].track == t);
            }
            if triggers_note(before, t, k) {
                let i = choose|i: int| 0 <= i < before.len() && (#[trigger] before[i]).track == t && before[i].step == k;
                assert(all[i] == before[i]);
            }
        }
    }
}

/// The note at step `k` of track `t` is among the triggers of a clock
/// position exactly when that position is the first sample of step `k` and
/// the track has a note at that step.
pub proof fn lemma_due_triggers_members(tracks: Seq<Seq<Option<Note>>>, defaults: Seq<Patch>, pos: int, t: int, k: int)
    requires
        state_wf(tracks),
        defaults.len() == tracks.len(),
        0 <= pos < PASS_LENGTH,
        0 <= t < tracks.len(),
        0 <= k < INITIAL_STEP_COUNT,
    ensures
        triggers_note(due_triggers(tracks, defaults, pos), t, k) <==> (fires(pos, k) && tracks[t][k] is Some),
{
    if pos % (SAMPLES_PER_STEP as int) == 0 {
        let s = step_of(pos);
        lemma_due_at_step_members(tracks, defaults, s, tracks.len() as int, t);
        let all = due_at_step(tracks, defaults, s, tracks.len() as int);
        if triggers_note(all, t, k) {
            let i = choose|i: int| 0 <= i < all.len() && (#[trigger] all[i]).track == t && all[i].step == k;
            assert(all[i].step == s);
        }
        if s == k {
            lemma_due_at_step_members(tracks, defaults, k, tracks.len() as int, t);
        }
    }
}

/// The first sample of step `k` is the position `k` steps into the pass.
proof fn lemma_fires_at_step_start(pos: int, k: int)
    requires
        0 <= pos < PASS_LENGTH,
        0 <= k < INITIAL_STEP_COUNT,
    ensures
        fires(pos, k) <==> pos == k * SAMPLES_PER_STEP,
{
    vstd::arithmetic::div_mod::lemma_fundamental_div_mod(pos, SAMPLES_PER_STEP as int);
    if pos == k * SAMPLES_PER_STEP {
        vstd::arithmetic::div_mod::lemma_fundamental_div_mod_converse(pos, SAMPLES_PER_STEP as int, k, 0);
    }
}

/// A position less than two passes, brought back into one pass.
proof fn lemma_wrap_once(x: int)
    requires
        0 <= x < 2 * PASS_LENGTH,
    ensures
        x % (PASS_LENGTH as int) == if x < PASS_LENGTH { x } else { x - PASS_LENGTH },
{
    if x < PASS_LENGTH {
        vstd::arithmetic::div_mod::lemma_fundamental_div_mod_converse(x, PASS_LENGTH as int, 0, x);
    } else {
        vstd::arithmetic::div_mod::lemma_fundamental_div_mod_converse(x, PASS_LENGTH as int, 1, x - PASS_LENGTH);
    }
}

/// The clock position after `i` ticks from `start` is
/// `(start + i) % PASS_LENGTH`.
pub proof fn lemma_position_after(start: int, i: nat)
    requires
        0 <= start < PASS_LENGTH,
    ensures
        position_after(start, i) == (start + i) % (PASS_LENGTH as int),
    decreases i,
{
    let p = PASS_LENGTH as int;
    if i == 0 {
        vstd::arithmetic::div_mod::lemma_small_mod(start as nat, p as nat);
    } else {
        lemma_position_after(start, (i - 1) as nat);
        vstd::arithmetic::div_mod::lemma_add_mod_noop(start + i - 1, 1, p);
        vstd::arithmetic::div_mod::lemma_small_mod(1, p as nat);
    }
}

/// Over any `PASS_LENGTH` consecutive ticks from clock position `start`,
/// a note at step `k` of track `t` is among the triggers of exactly one
/// tick, and only ever at a tick where the clock's whole step is `k`.
pub proof fn lemma_note_fires_once_per_pass_of_ticks(
    tracks: Seq<Seq<Option<Note>>>,
    defaults: Seq<Patch>,
    start: int,
    t: int,
    k: int,
)
    requires
        state_wf(tracks),
        defaults.len() == tracks.len(),
        0 <= start < PASS_LENGTH,
        0 <= t < tracks.len(),
        0 <= k < INITIAL_STEP_COUNT,
        tracks[t][k] is Some,
    ensures
        exists|i: nat|
            1 <= i <= PASS_LENGTH && #[trigger] triggers_note(due_triggers(tracks, defaults, position_after(start, i)), t, k),
        forall|i: nat, j: nat|
            1 <= i <= PASS_LENGTH && 1 <= j <= PASS_LENGTH
                && #[trigger] triggers_note(due_triggers(tracks, defaults, position_after(start, i)), t, k)
                && #[trigger] triggers_note(due_triggers(tracks, defaults, position_after(start, j)), t, k)
                ==> i == j,
        forall|i: nat|
            #[trigger] triggers_note(due_triggers(tracks, defaults, position_after(start, i)), t, k)
                ==> step_of(position_after(start, i)) == k,
{
    lemma_note_fires_once_per_pass(tracks, defaults, start, t, k);
    let p = PASS_LENGTH as int;
    let i0 = choose|i: int|
        1 <= i <= PASS_LENGTH && #[trigger] triggers_note(due_triggers(tracks, defaults, (start + i) % p), t, k);
    lemma_position_after(start, i0 as nat);
    assert(triggers_note(due_triggers(tracks, defaults, position_after(start, i0 as nat)), t, k));
    assert forall|i: nat, j: nat|
        1 <= i <= PASS_LENGTH && 1 <= j <= PASS_LENGTH
            && #[trigger] triggers_note(due_triggers(tracks, defaults, position_after(start, i)), t, k)
            && #[trigger] triggers_note(due_triggers(tracks, defaults, position_after(start, j)), t, k)
            implies i == j by {
        lemma_position_after(start, i);
        lemma_position_after(start, j);
        assert(triggers_note(due_triggers(tracks, defaults, (start + i) % p), t, k));
        assert(triggers_note(due_triggers(tracks, defaults, (start + j) % p), t, k));
    }
    assert forall|i: nat|
        #[trigger] triggers_note(due_triggers(tracks, defaults, position_after(start, i)), t, k)
            implies step_of(position_after(start, i)) == k by {
        lemma_position_after(start, i);
        vstd::arithmetic::div_mod::lemma_mod_bound(start + i, p);
    }
}

/// From clock position `start`, the position after `i` ticks is
/// `(start + i) % PASS_LENGTH`. Over any `PASS_LENGTH` consecutive ticks, a
/// note at step `k` of track `t` is triggered at exactly one tick, and only
/// ever where the clock's whole step is `k`.
pub proof fn lemma_note_fires_once_per_pass(
    tracks: Seq<Seq<Option<Note>>>,
    defaults: Seq<Patch>,
    start: int,
    t: int,
    k: int,
)
    requires
        state_wf(tracks),
        defaults.len() == tracks.len(),
        0 <= start < PASS_LENGTH,
        0 <= t < tracks.len(),
        0 <= k < INITIAL_STEP_COUNT,
        tracks[t][k] is Some,
    ensures
        forall|i: int| 0 <= i ==> #[trigger] next_position((start + i) % (PASS_LENGTH as int)) == (start + i + 1) % (PASS_LENGTH as int),
        exists|i: int|
            1 <= i <= PASS_LENGTH && #[trigger] triggers_note(
                due_triggers(tracks, defaults, (start + i) % (PASS_LENGTH as int)),
                t,
                k,
            ),
        forall|i: int, j: int|
            1 <= i <= PASS_LENGTH && 1 <= j <= PASS_LENGTH
                && #[trigger] triggers_note(due_triggers(tracks, defaults, (start + i) % (PASS_LENGTH as int)), t, k)
                && #[trigger] triggers_note(due_triggers(tracks, defaults, (start + j) % (PASS_LENGTH as int)), t, k)
                ==> i == j,
        forall|pos: int|
            0 <= pos < PASS_LENGTH && #[trigger] triggers_note(due_triggers(tracks, defaults, pos), t, k)
                ==> step_of(pos) == k,
{
    let p = PASS_LENGTH as int;
    assert forall|i: int| 0 <= i implies #[trigger] next_position((start + i) % p) == (start + i + 1) % p by {
        vstd::arithmetic::div_mod::lemma_add_mod_noop(start + i, 1, p);
        vstd::arithmetic::div_mod::lemma_small_mod(1, p as nat);
    }
    let first = k * SAMPLES_PER_STEP;
    let i0 = if first > start { first - start } else { first - start + p };
    lemma_wrap_once(start + i0);
    lemma_fires_at_step_start(first, k);
    lemma_due_triggers_members(tracks, defaults, first, t, k);
    assert(triggers_note(due_triggers(tracks, defaults, (start + i0) % p), t, k));
    assert forall|i: int, j: int|
        1 <= i <= PASS_LENGTH && 1 <= j <= PASS_LENGTH
            && #[trigger] triggers_note(due_triggers(tracks, defaults, (start + i) % p), t, k)
            && #[trigger] triggers_note(due_triggers(tracks, defaults, (start + j) % p), t, k)
            implies i == j by {
        lemma_wrap_once(start + i);
        lemma_wrap_once(start + j);
        lemma_due_triggers_members(tracks, defaults, (start + i) % p, t, k);
        lemma_due_triggers_members(tracks, defaults, (start + j) % p, t, k);
        lemma_fires_at_step_start((start + i) % p, k);
        lemma_fires_at_step_start((start + j) % p, k);
    }
    assert forall|pos: int|
        0 <= pos < PASS_LENGTH && #[trigger] triggers_note(due_triggers(tracks, defaults, pos), t, k)
            implies step_of(pos) == k by {
        lemma_due_triggers_members(tracks, defaults, pos, t, k);
    }
}

} // verus!
