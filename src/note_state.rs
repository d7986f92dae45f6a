//! The voice pool: which notes are held, the octave shift, and the live voices.
use vstd::prelude::*;

use crate::envelope::AmplitudeEnvelope;
use crate::keys::{binding_from, lemma_note_frequency_bound, lookup, note_frequency, upper_of, NoteEvent, Scale};
use crate::oscillator::{level_to_gain, ms_to_samples, phase_after, Oscillator};
use crate::sample::{div_floor, saturate, saturate_i64};
use crate::tremolo::{position_after_steps, TremoloEffect};
use crate::waveform::{OscillatorWaveform, Wavetables};

verus! {

/// The octave shift stays within [-`MAX_OCTAVE_SHIFT`, `MAX_OCTAVE_SHIFT`].
pub const MAX_OCTAVE_SHIFT: i32 = 2;

/// No two bindings share a key.
pub open spec fn keys_distinct<V>(b: Seq<(String, V)>) -> bool {
    forall|i: int, j: int| 0 <= i < j < b.len() ==> #[trigger] b[i].0@ != #[trigger] b[j].0@
}

/// No two voices play the same note.
pub open spec fn notes_distinct(v: Seq<Oscillator>) -> bool {
    forall|i: int, j: int|
        0 <= i < v.len() && 0 <= j < v.len() && i != j ==> #[trigger] v[i].spec_note()
            != #[trigger] v[j].spec_note()
}

/// The octave shift after a change in `direction`: one up for "up", one down
/// for "down", held to [-2, 2]; any other direction leaves it.
pub open spec fn shifted_octave(shift: int, direction: Seq<char>) -> int {
    if direction == "up"@ {
        if shift + 1 > MAX_OCTAVE_SHIFT {
            MAX_OCTAVE_SHIFT as int
        } else {
            shift + 1
        }
    } else if direction == "down"@ {
        if shift - 1 < -MAX_OCTAVE_SHIFT {
            -MAX_OCTAVE_SHIFT as int
        } else {
            shift - 1
        }
    } else {
        shift
    }
}

/// The shift after `n` changes in the same direction.
pub open spec fn repeated_shift(shift: int, direction: Seq<char>, n: nat) -> int
    decreases n,
{
    if n == 0 {
        shift
    } else {
        shifted_octave(repeated_shift(shift, direction, (n - 1) as nat), direction)
    }
}

/// How recently a note was switched on; notes never switched on rank lowest.
pub open spec fn rank(order: Option<u64>) -> int {
    match order {
        Some(o) => o as int,
        None => -1,
    }
}

/// A binding list after `key` is bound to `value`: its first binding is
/// changed in place, or a new one goes at the end.
pub open spec fn bound<V>(b: Seq<(String, V)>, key: Seq<char>, value: V, k: Seq<char>) -> Option<V> {
    if k == key {
        Some(value)
    } else {
        lookup(b, k)
    }
}

/// The value for `k` after `key` is bound to `value`, given the value before.
pub open spec fn bound_to<V>(key: Seq<char>, value: V, k: Seq<char>, before: Option<V>) -> Option<V> {
    if k == key {
        Some(value)
    } else {
        before
    }
}

/// `after` holds `note` flagged `value`, and every other note as `before` did.
pub open spec fn flags_bound(before: NoteState, after: NoteState, note: Seq<char>, value: bool) -> bool {
    forall|n: Seq<char>| #[trigger] after.flag(n) == bound_to(note, value, n, before.flag(n))
}

/// Looking up in a list whose keys stay as they were after an entry changes.
proof fn lemma_binding_update<V>(b: Seq<(String, V)>, i: int, e: (String, V), key: Seq<char>, from: int)
    requires
        0 <= i < b.len(),
        e.0@ == b[i].0@,
    ensures
        binding_from(b.update(i, e), key, from) == binding_from(b, key, from),
    decreases b.len() - from,
{
    if 0 <= from < b.len() {
        lemma_binding_update(b, i, e, key, from + 1);
    }
}

/// Looking up in a list with one more binding at the end.
proof fn lemma_binding_push<V>(b: Seq<(String, V)>, e: (String, V), key: Seq<char>, from: int)
    requires
        0 <= from,
    ensures
        binding_from(b.push(e), key, from) == match binding_from(b, key, from) {
            Some(x) => Some(x),
            None => if from <= b.len() && e.0@ == key {
                Some(b.len() as int)
            } else {
                None
            },
        },
    decreases b.len() + 1 - from,
{
    if from < b.len() {
        lemma_binding_push(b, e, key, from + 1);
    } else {
        assert(binding_from(b.push(e), key, from + 1) is None);
    }
}

/// A binding that is found holds the key.
proof fn lemma_binding_found<V>(b: Seq<(String, V)>, key: Seq<char>, from: int)
    ensures
        binding_from(b, key, from) matches Some(j) ==> from <= j < b.len() && b[j].0@ == key,
    decreases b.len() - from,
{
    if 0 <= from < b.len() {
        lemma_binding_found(b, key, from + 1);
    }
}

/// With distinct keys, a key is found where it stands.
proof fn lemma_binding_distinct<V>(b: Seq<(String, V)>, i: int, from: int)
    requires
        keys_distinct(b),
        0 <= from <= i < b.len(),
    ensures
        binding_from(b, b[i].0@, from) == Some(i),
    decreases i - from,
{
    if from < i {
        assert(b[from].0@ != b[i].0@);
        lemma_binding_distinct(b, i, from + 1);
    }
}

/// Binds `key` to `value` in place or at the end; the keys stay distinct.
fn bind<V>(b: &mut Vec<(String, V)>, key: String, value: V)
    requires
        keys_distinct(old(b)@),
    ensures
        keys_distinct(final(b)@),
        forall|k: Seq<char>| #[trigger] lookup(final(b)@, k) == bound(old(b)@, key@, value, k),
{
    match crate::keys::find_binding(b, &key) {
        Some(i) => {
            let ghost b0 = b@;
            let ghost e = (key, value);
            proof {
                lemma_binding_found(b0, key@, 0);
            }
            b.set(i, (key, value));
            proof {
                assert(b@ == b0.update(i as int, e));
                assert forall|k: Seq<char>| #[trigger] lookup(b@, k) == bound(b0, e.0@, e.1, k) by {
                    lemma_binding_update(b0, i as int, e, k, 0);
                    if k == e.0@ {
                    } else {
                        let j = binding_from(b0, k, 0);
                        lemma_binding_found(b0, k, 0);
                        if j is Some {
                            lemma_binding_distinct(b0, j->0, 0);
                        }
                    }
                }
                assert forall|x: int, y: int| 0 <= x < y < b@.len() implies #[trigger] b@[x].0@
                    != #[trigger] b@[y].0@ by {
                    assert(b0[x].0@ != b0[y].0@);
                }
            }
        },
        None => {
            let ghost b0 = b@;
            let ghost e = (key, value);
            b.push((key, value));
            proof {
                assert forall|k: Seq<char>| #[trigger] lookup(b@, k) == bound(b0, e.0@, e.1, k) by {
                    lemma_binding_push(b0, e, k, 0);
                    lemma_binding_found(b0, k, 0);
                    if binding_from(b0, k, 0) is Some {
                        let j = binding_from(b0, k, 0)->0;
                        lemma_binding_distinct(b0, j, 0);
                    }
                }
                assert forall|x: int, y: int| 0 <= x < y < b@.len() implies #[trigger] b@[x].0@
                    != #[trigger] b@[y].0@ by {
                    if y == b0.len() {
                        lemma_binding_distinct(b0, x, 0);
                    }
                }
            }
        },
    }
}

/// The voice pool: the notes held or released, when each was last switched
/// on, the octave shift, and at most one live voice per note.
#[derive(Debug)]
pub struct NoteState {
    playing_notes: Vec<(String, bool)>,
    activation_order: Vec<(String, u64)>,
    activations: u64,
    octave_shift: i32,
    oscillators: Vec<Oscillator>,
}

impl NoteState {
    pub closed spec fn wf(&self) -> bool {
        &&& keys_distinct(self.playing_notes@)
        &&& keys_distinct(self.activation_order@)
        &&& -MAX_OCTAVE_SHIFT <= self.octave_shift <= MAX_OCTAVE_SHIFT
        &&& notes_distinct(self.oscillators@)
        &&& forall|i: int| 0 <= i < self.oscillators@.len() ==> #[trigger] self.oscillators@[i].wf()
    }

    /// Whether a note is held (`Some(true)`), released (`Some(false)`) or never seen.
    pub closed spec fn flag(&self, note: Seq<char>) -> Option<bool> {
        lookup(self.playing_notes@, note)
    }

    /// When a note was last switched on, counted in note-on events.
    pub closed spec fn order(&self, note: Seq<char>) -> Option<u64> {
        lookup(self.activation_order@, note)
    }

    pub closed spec fn activations(&self) -> u64 {
        self.activations
    }

    pub closed spec fn octave(&self) -> int {
        self.octave_shift as int
    }

    /// The live voices.
    pub closed spec fn voices(&self) -> Seq<Oscillator> {
        self.oscillators@
    }

    pub open spec fn is_held(&self, note: Seq<char>) -> bool {
        self.flag(note) == Some(true)
    }

    /// An empty pool: nothing held, no voices, no octave shift.
    pub fn new() -> (r: Self)
        ensures
            r.wf(),
            forall|n: Seq<char>| #[trigger] r.flag(n) is None,
            forall|n: Seq<char>| #[trigger] r.order(n) is None,
            r.voices().len() == 0,
            r.octave() == 0,
            r.activations() == 0,
    {
        NoteState {
            playing_notes: Vec::new(),
            activation_order: Vec::new(),
            activations: 0,
            octave_shift: 0,
            oscillators: Vec::new(),
        }
    }

    /// Marks a note held and records it as the most recently switched on.
    pub fn note_on(&mut self, note: String)
        requires
            old(self).wf(),
        ensures
            final(self).wf(),
            flags_bound(*old(self), *final(self), note@, true),
            forall|n: Seq<char>| #[trigger] final(self).order(n) == bound_to(note@, old(self).activations(), n, old(self).order(n)),
            final(self).activations() == if old(self).activations() < u64::MAX {
                old(self).activations() + 1
            } else {
                u64::MAX as int
            },
            final(self).voices() == old(self).voices(),
            final(self).octave() == old(self).octave(),
    {
        let key = note.clone();
        bind(&mut self.playing_notes, note, true);
        bind(&mut self.activation_order, key, self.activations);
        if self.activations < u64::MAX {
            self.activations = self.activations + 1;
        }
    }

    /// Marks a note released.
    pub fn note_off(&mut self, note: String)
        requires
            old(self).wf(),
        ensures
            final(self).wf(),
            flags_bound(*old(self), *final(self), note@, false),
            forall|n: Seq<char>| #[trigger] final(self).order(n) == old(self).order(n),
            final(self).activations() == old(self).activations(),
            final(self).voices() == old(self).voices(),
            final(self).octave() == old(self).octave(),
    {
        bind(&mut self.playing_notes, note, false);
    }

    pub fn is_playing(&self, note: &String) -> (r: bool)
        ensures
            r == self.is_held(note@),
    {
        match crate::keys::find_binding(&self.playing_notes, note) {
            Some(i) => self.playing_notes[i].1,
            None => false,
        }
    }

    /// Moves the octave shift one step in `direction` ("up" or "down"),
    /// held to [-2, 2]; other directions change nothing.
    pub fn change_octave(&mut self, direction: String)
        requires
            old(self).wf(),
        ensures
            final(self).wf(),
            final(self).octave() == shifted_octave(old(self).octave(), direction@),
            forall|n: Seq<char>| #[trigger] final(self).flag(n) == old(self).flag(n),
            forall|n: Seq<char>| #[trigger] final(self).order(n) == old(self).order(n),
            final(self).activations() == old(self).activations(),
            final(self).voices() == old(self).voices(),
    {
        let up = String::from_str("up");
        let down = String::from_str("down");
        if direction == up {
            if self.octave_shift < MAX_OCTAVE_SHIFT {
                self.octave_shift = self.octave_shift + 1;
            }
        } else if direction == down {
            if self.octave_shift > -MAX_OCTAVE_SHIFT {
                self.octave_shift = self.octave_shift - 1;
            }
        }
    }

    /// The live voices.
    pub fn oscillators(&self) -> (r: &Vec<Oscillator>)
        ensures
            r@ == self.voices(),
    {
        &self.oscillators
    }

    pub fn get_octave_shift(&self) -> (r: i32)
        ensures
            r == self.octave(),
    {
        self.octave_shift
    }

    /// Applies one input event to the state it names: the held notes, the
    /// octave shift, the waveform selection, the tremolo switch or the scale.
    pub fn handle_event(
        &mut self,
        event: NoteEvent,
        waveform_type: &mut OscillatorWaveform,
        tremolo_effect: &mut TremoloEffect,
        scale: &mut Scale,
    )
        requires
            old(self).wf(),
            old(tremolo_effect).wf(),
        ensures
            final(self).wf(),
            final(tremolo_effect).wf(),
            final(self).voices() == old(self).voices(),
            forall|n: Seq<char>| #[trigger] final(self).flag(n) == match event {
                NoteEvent::On(note) => bound_to(note@, true, n, old(self).flag(n)),
                NoteEvent::Off(note) => bound_to(note@, false, n, old(self).flag(n)),
                _ => old(self).flag(n),
            },
            forall|n: Seq<char>| #[trigger] final(self).order(n) == match event {
                NoteEvent::On(note) => bound_to(note@, old(self).activations(), n, old(self).order(n)),
                _ => old(self).order(n),
            },
            final(self).activations() == match event {
                NoteEvent::On(_) => if old(self).activations() < u64::MAX {
                    old(self).activations() + 1
                } else {
                    u64::MAX as int
                },
                _ => old(self).activations() as int,
            },
            final(self).octave() == match event {
                NoteEvent::ChangeOctave(d) => shifted_octave(old(self).octave(), d@),
                _ => old(self).octave(),
            },
            *final(waveform_type) == match event {
                NoteEvent::ChangeWaveform(w) => w,
                _ => *old(waveform_type),
            },
            match event {
                NoteEvent::ToggleTremolo => crate::tremolo::toggled(
                    *old(tremolo_effect),
                    *final(tremolo_effect),
                ),
                _ => *final(tremolo_effect) == *old(tremolo_effect),
            },
            match event {
                NoteEvent::ChangeKey(k) => final(scale).root_note == k && final(scale).intervals
                    == old(scale).intervals,
                _ => *final(scale) == *old(scale),
            },
    {
        match event {
            NoteEvent::On(note) => self.note_on(note),
            NoteEvent::Off(note) => self.note_off(note),
            NoteEvent::ChangeWaveform(waveform) => {
                *waveform_type = waveform;
            },
            NoteEvent::ChangeOctave(direction) => self.change_octave(direction),
            NoteEvent::ToggleTremolo => tremolo_effect.toggle(),
            NoteEvent::ChangeKey(new_key) => scale.change_root_note(new_key),
        }
    }
}

/// Some voice plays `note`.
pub open spec fn has_voice_for(voices: Seq<Oscillator>, note: Seq<char>) -> bool {
    exists|j: int| 0 <= j < voices.len() && #[trigger] voices[j].spec_note() == note
}

/// Whether a voice plays a note other than `note`.
pub open spec fn other_notes(note: Seq<char>) -> spec_fn(Oscillator) -> bool {
    |v: Oscillator| v.spec_note() != note
}

/// The voice that plays `note`, where there is one.
pub open spec fn voice_for(voices: Seq<Oscillator>, note: Seq<char>) -> Oscillator {
    voices[choose|j: int| 0 <= j < voices.len() && #[trigger] voices[j].spec_note() == note]
}

impl NoteState {
    /// The held note most recently switched on, if any note is held.
    pub fn find_active_note(&self) -> (r: Option<String>)
        requires
            self.wf(),
        ensures
            r is None <==> forall|n: Seq<char>| !#[trigger] self.is_held(n),
            r matches Some(n) ==> self.is_held(n@) && forall|m: Seq<char>| #[trigger]
                self.is_held(m) ==> rank(self.order(m)) <= rank(self.order(n@)),
    {
        let notes = &self.playing_notes;
        let mut best: Option<usize> = None;
        let mut best_rank: i128 = -1;
        let mut i: usize = 0;
        while i < notes.len()
            invariant
                notes == &self.playing_notes,
                keys_distinct(notes@),
                i <= notes@.len(),
                best matches Some(b) ==> b < i && notes@[b as int].1 && best_rank == rank(
                    self.order(notes@[b as int].0@),
                ),
                best is None ==> forall|j: int| 0 <= j < i ==> !(#[trigger] notes@[j]).1,
                forall|j: int|
                    0 <= j < i && (#[trigger] notes@[j]).1 ==> rank(self.order(notes@[j].0@))
                        <= best_rank,
            decreases notes@.len() - i,
        {
            if notes[i].1 {
                let order: i128 = match crate::keys::find_binding(&self.activation_order, &notes[i].0) {
                    Some(k) => self.activation_order[k].1 as i128,
                    None => -1,
                };
                if best.is_none() || order > best_rank {
                    best = Some(i);
                    best_rank = order;
                }
            }
            i = i + 1;
        }
        proof {
            assert forall|m: Seq<char>| #[trigger] self.is_held(m) implies best is Some && rank(
                self.order(m),
            ) <= best_rank by {
                lemma_binding_found(notes@, m, 0);
                let j = binding_from(notes@, m, 0)->0;
                assert(notes@[j].1);
            }
        }
        match best {
            Some(b) => {
                proof {
                    lemma_binding_distinct(notes@, b as int, 0);
                    assert(self.is_held(notes@[b as int].0@));
                }
                Some(notes[b].0.clone())
            },
            None => {
                proof {
                    assert forall|n: Seq<char>| !#[trigger] self.is_held(n) by {
                        lemma_binding_found(notes@, n, 0);
                    }
                }
                None
            },
        }
    }

    /// Drops the voice of `note`, if there is one; the others keep their order.
    pub fn remove_oscillator(&mut self, note: &str)
        requires
            old(self).wf(),
        ensures
            final(self).wf(),
            final(self).voices() == old(self).voices().filter(other_notes(note@)),
            forall|n: Seq<char>| #[trigger] final(self).flag(n) == old(self).flag(n),
            forall|n: Seq<char>| #[trigger] final(self).order(n) == old(self).order(n),
            final(self).activations() == old(self).activations(),
            final(self).octave() == old(self).octave(),
    {
        let ghost keep = other_notes(note@);
        let target = String::from_str(note);
        let mut rest: Vec<Oscillator> = Vec::new();
        std::mem::swap(&mut rest, &mut self.oscillators);
        let ghost all = rest@;
        let n: usize = rest.len();
        let mut kept: Vec<Oscillator> = Vec::new();
        let mut j: usize = 0;
        assert(all.subrange(0, 0).filter(keep) =~= Seq::<Oscillator>::empty()) by {
            reveal(Seq::filter);
        }
        while rest.len() > 0
            invariant
                keep == other_notes(note@),
                j <= n,
                n == all.len(),
                rest@ == all.subrange(j as int, n as int),
                kept@ == all.subrange(0, j as int).filter(keep),
                notes_distinct(all),
                forall|i: int| 0 <= i < all.len() ==> #[trigger] all[i].wf(),
                notes_distinct(kept@),
                forall|i: int| 0 <= i < kept@.len() ==> #[trigger] kept@[i].wf(),
                forall|a: int, b: int|
                    0 <= a < kept@.len() && j <= b < n ==> #[trigger] kept@[a].spec_note()
                        != #[trigger] all[b].spec_note(),
                target@ == note@,
            decreases rest@.len(),
        {
            let v = rest.remove(0);
            proof {
                assert(all.subrange(0, j + 1) =~= all.subrange(0, j as int).push(v));
                all.subrange(0, j as int).lemma_filter_push(v, keep);
            }
            if !(*v.get_note() == target) {
                kept.push(v);
            }
            j = j + 1;
        }
        proof {
            assert(all.subrange(0, n as int) == all);
        }
        self.oscillators = kept;
    }

    /// Adds a voice; a voice already playing the same note is dropped first.
    pub fn add_oscillator(&mut self, oscillator: Oscillator)
        requires
            old(self).wf(),
            oscillator.wf(),
        ensures
            final(self).wf(),
            final(self).voices() == old(self).voices().filter(
                other_notes(oscillator.spec_note()),
            ).push(oscillator),
            forall|n: Seq<char>| #[trigger] final(self).flag(n) == old(self).flag(n),
            final(self).octave() == old(self).octave(),
    {
        let ghost before = *self;
        self.remove_oscillator(oscillator.get_note().as_str());
        proof {
            assert forall|n: Seq<char>| #[trigger] self.flag(n) == before.flag(n) by {
                assert(self.flag(n) == before.flag(n));
            }
            let keep = other_notes(oscillator.spec_note());
            assert forall|i: int| 0 <= i < self.oscillators@.len() implies #[trigger]
                self.oscillators@[i].spec_note() != oscillator.spec_note() by {
                old(self).voices().lemma_filter_pred(keep, i);
            }
        }
        let ghost mid = *self;
        self.oscillators.push(oscillator);
        proof {
            assert forall|n: Seq<char>| #[trigger] self.flag(n) == before.flag(n) by {
                assert(self.playing_notes == mid.playing_notes);
                assert(mid.flag(n) == before.flag(n));
            }
        }
    }
}

/// Envelope of the voices the pool starts: attack in milliseconds.
pub const VOICE_ATTACK_MS: u32 = 500;

/// Decay of the voices the pool starts, in milliseconds.
pub const VOICE_DECAY_MS: u32 = 100;

/// Sustain level of the voices the pool starts, in thousandths.
pub const VOICE_SUSTAIN: u32 = 700;

/// Release of the voices the pool starts, in milliseconds.
pub const VOICE_RELEASE_MS: u32 = 500;

/// A frequency moved by `shift` octaves (-2 to 2): doubled per octave up,
/// halved (rounded down) per octave down.
pub open spec fn octave_scaled(f: int, shift: int) -> int {
    if shift >= 2 {
        f * 4
    } else if shift == 1 {
        f * 2
    } else if shift == 0 {
        f
    } else if shift == -1 {
        f / 2
    } else {
        f / 4
    }
}

/// The envelope of a voice the pool starts.
pub open spec fn voice_envelope(sample_rate: int) -> AmplitudeEnvelope {
    AmplitudeEnvelope {
        attack_time: ms_to_samples(VOICE_ATTACK_MS as int, sample_rate) as u32,
        decay_time: ms_to_samples(VOICE_DECAY_MS as int, sample_rate) as u32,
        sustain_level: level_to_gain(VOICE_SUSTAIN as int) as u32,
        release_time: ms_to_samples(VOICE_RELEASE_MS as int, sample_rate) as u32,
    }
}

/// `v` is a voice started for `note` at `current_time`: the note's frequency
/// in the scale moved by the octave shift, the selected waveform, phase 0.
pub open spec fn fresh_voice(
    v: Oscillator,
    note: Seq<char>,
    shift: int,
    waveform: OscillatorWaveform,
    current_time: u64,
    sample_rate: u32,
) -> bool {
    &&& v.wf()
    &&& v.spec_note() == note
    &&& v.spec_waveform() == waveform
    &&& note_frequency(upper_of(note)) is Some
    &&& v.spec_frequency() == octave_scaled(note_frequency(upper_of(note))->0 as int, shift)
    &&& v.spec_start_time() == Some(current_time)
    &&& v.generator().spec_phase() == 0
    &&& v.generator().spec_sample_rate() == sample_rate
    &&& v.spec_envelope() == voice_envelope(sample_rate as int)
}

/// `v` is the live voice `before`, carried into the next block on the selected
/// waveform: unchanged if it already had it, else restarted at phase 0.
pub open spec fn carried_voice(v: Oscillator, before: Oscillator, waveform: OscillatorWaveform) -> bool {
    &&& v.wf()
    &&& v.spec_note() == before.spec_note()
    &&& v.spec_waveform() == waveform
    &&& v.spec_frequency() == before.spec_frequency()
    &&& v.spec_start_time() == before.spec_start_time()
    &&& v.spec_envelope() == before.spec_envelope()
    &&& before.spec_waveform() == waveform ==> v == before
    &&& before.spec_waveform() != waveform ==> v.generator().spec_phase() == 0
}

/// `after` is the pool `before` reconciled for a block at `current_time`:
/// the held notes, the octave shift and the order of activation kept; only
/// voices of held notes left; each live voice carried on the selected
/// waveform; a fresh voice for each held note that had none and that the
/// scale knows.
pub open spec fn reconciled(
    before: NoteState,
    after: NoteState,
    waveform: OscillatorWaveform,
    current_time: u64,
    sample_rate: u32,
) -> bool {
    &&& notes_distinct(after.voices())
    &&& forall|n: Seq<char>| #[trigger] after.flag(n) == before.flag(n)
    &&& forall|n: Seq<char>| #[trigger] after.order(n) == before.order(n)
    &&& after.activations() == before.activations()
    &&& after.octave() == before.octave()
    &&& forall|j: int|
            0 <= j < after.voices().len() ==> before.is_held(
                (#[trigger] after.voices()[j]).spec_note(),
            )
    &&& forall|j: int|
            0 <= j < after.voices().len() ==> if has_voice_for(
                before.voices(),
                (#[trigger] after.voices()[j]).spec_note(),
            ) {
                carried_voice(
                    after.voices()[j],
                    voice_for(before.voices(), after.voices()[j].spec_note()),
                    waveform,
                )
            } else {
                fresh_voice(
                    after.voices()[j],
                    after.voices()[j].spec_note(),
                    before.octave(),
                    waveform,
                    current_time,
                    sample_rate,
                )
            }
    &&& forall|n: Seq<char>|
            before.is_held(n) && (has_voice_for(before.voices(), n) || note_frequency(
                upper_of(n),
            ) is Some) ==> #[trigger] has_voice_for(after.voices(), n)
}

/// Whether some voice plays `note`.
fn has_voice(voices: &Vec<Oscillator>, note: &String) -> (r: bool)
    ensures
        r == has_voice_for(voices@, note@),
{
    let mut i: usize = 0;
    while i < voices.len()
        invariant
            i <= voices@.len(),
            forall|j: int| 0 <= j < i ==> (#[trigger] voices@[j]).spec_note() != note@,
        decreases voices@.len() - i,
    {
        if *voices[i].get_note() == *note {
            return true;
        }
        i = i + 1;
    }
    false
}

/// A frequency moved by an octave shift in [-2, 2].
fn octave_scale(f: u64, shift: i32) -> (r: u64)
    requires
        f <= 523251,
        -MAX_OCTAVE_SHIFT <= shift <= MAX_OCTAVE_SHIFT,
    ensures
        r == octave_scaled(f as int, shift as int),
{
    if shift >= 2 {
        f * 4
    } else if shift == 1 {
        f * 2
    } else if shift == 0 {
        f
    } else if shift == -1 {
        f / 2
    } else {
        f / 4
    }
}

/// With distinct notes, the voice found for a voice's note is that voice.
proof fn lemma_voice_for_distinct(voices: Seq<Oscillator>, j: int)
    requires
        notes_distinct(voices),
        0 <= j < voices.len(),
    ensures
        has_voice_for(voices, voices[j].spec_note()),
        voice_for(voices, voices[j].spec_note()) == voices[j],
{
    assert(voices[j].spec_note() == voices[j].spec_note());
    let i = choose|i: int| 0 <= i < voices.len() && #[trigger] voices[i].spec_note() == voices[j].spec_note();
    assert(i == j);
}

impl NoteState {
    /// The voice state a block starts from: voices of released notes are
    /// dropped, the others move to the selected waveform, and each held note
    /// without a voice whose name the scale knows gets a fresh voice, started
    /// at `current_time`.
    pub fn reconcile(
        &mut self,
        scale: &Scale,
        waveform: OscillatorWaveform,
        current_time: u64,
        sample_rate: u32,
    )
        requires
            old(self).wf(),
            sample_rate > 0,
        ensures
            final(self).wf(),
            reconciled(*old(self), *final(self), waveform, current_time, sample_rate),
    {
        let mut rest: Vec<Oscillator> = Vec::new();
        std::mem::swap(&mut rest, &mut self.oscillators);
        let ghost all = rest@;
        let n: usize = rest.len();
        let mut kept: Vec<Oscillator> = Vec::new();
        let mut j: usize = 0;
        while rest.len() > 0
            invariant
                j <= n,
                n == all.len(),
                rest@ == all.subrange(j as int, n as int),
                all == old(self).oscillators@,
                self.playing_notes == old(self).playing_notes,
                notes_distinct(all),
                forall|i: int| 0 <= i < all.len() ==> #[trigger] all[i].wf(),
                notes_distinct(kept@),
                forall|a: int, b: int|
                    0 <= a < kept@.len() && j <= b < n ==> #[trigger] kept@[a].spec_note()
                        != #[trigger] all[b].spec_note(),
                forall|a: int|
                    0 <= a < kept@.len() ==> {
                        &&& old(self).is_held((#[trigger] kept@[a]).spec_note())
                        &&& has_voice_for(all, kept@[a].spec_note())
                        &&& carried_voice(kept@[a], voice_for(all, kept@[a].spec_note()), waveform)
                    },
                forall|b: int|
                    0 <= b < j && old(self).is_held((#[trigger] all[b]).spec_note())
                        ==> has_voice_for(kept@, all[b].spec_note()),
            decreases rest@.len(),
        {
            let mut v = rest.remove(0);
            proof {
                lemma_voice_for_distinct(all, j as int);
            }
            if self.is_playing(v.get_note()) {
                if v.get_waveform() != waveform {
                    v.set_waveform(waveform);
                }
                let ghost prev = kept@;
                kept.push(v);
                proof {
                    assert(kept@[prev.len() as int] == v);
                    assert forall|b: int|
                        0 <= b < j + 1 && old(self).is_held((#[trigger] all[b]).spec_note())
                            implies has_voice_for(kept@, all[b].spec_note()) by {
                        if b < j {
                            let w = choose|x: int| 0 <= x < prev.len() && #[trigger] prev[x].spec_note() == all[b].spec_note();
                            assert(kept@[w] == prev[w]);
                        } else {
                            assert(kept@[prev.len() as int].spec_note() == all[b].spec_note());
                        }
                    }
                }
            }
            j = j + 1;
        }
        self.oscillators = kept;
        let ghost retained = self.oscillators@;
        let mut i: usize = 0;
        while i < self.playing_notes.len()
            invariant
                sample_rate > 0,
                i <= self.playing_notes@.len(),
                self.playing_notes == old(self).playing_notes,
                self.activation_order == old(self).activation_order,
                self.activations == old(self).activations,
                self.octave_shift == old(self).octave_shift,
                keys_distinct(self.playing_notes@),
                keys_distinct(self.activation_order@),
                -MAX_OCTAVE_SHIFT <= self.octave_shift <= MAX_OCTAVE_SHIFT,
                all == old(self).oscillators@,
                notes_distinct(all),
                notes_distinct(self.oscillators@),
                forall|a: int|
                    0 <= a < self.oscillators@.len() ==> {
                        &&& old(self).is_held((#[trigger] self.oscillators@[a]).spec_note())
                        &&& self.oscillators@[a].wf()
                        &&& if has_voice_for(all, self.oscillators@[a].spec_note()) {
                            carried_voice(
                                self.oscillators@[a],
                                voice_for(all, self.oscillators@[a].spec_note()),
                                waveform,
                            )
                        } else {
                            fresh_voice(
                                self.oscillators@[a],
                                self.oscillators@[a].spec_note(),
                                old(self).octave(),
                                waveform,
                                current_time,
                                sample_rate,
                            )
                        }
                    },
                forall|b: int|
                    0 <= b < all.len() && old(self).is_held((#[trigger] all[b]).spec_note())
                        ==> has_voice_for(self.oscillators@, all[b].spec_note()),
                forall|k: int|
                    0 <= k < i && (#[trigger] self.playing_notes@[k]).1 && note_frequency(
                        upper_of(self.playing_notes@[k].0@),
                    ) is Some ==> has_voice_for(self.oscillators@, self.playing_notes@[k].0@),
            decreases self.playing_notes@.len() - i,
        {
            if self.playing_notes[i].1 && !has_voice(&self.oscillators, &self.playing_notes[i].0) {
                proof {
                    lemma_binding_distinct(self.playing_notes@, i as int, 0);
                }
                if let Some(f) = scale.calculate_frequency(self.playing_notes[i].0.as_str()) {
                    proof {
                        lemma_note_frequency_bound(upper_of(self.playing_notes@[i as int].0@));
                    }
                    let freq = octave_scale(f, self.octave_shift);
                    let mut osc = Oscillator::new(
                        freq,
                        sample_rate,
                        waveform,
                        self.playing_notes[i].0.clone(),
                        VOICE_ATTACK_MS,
                        VOICE_DECAY_MS,
                        VOICE_SUSTAIN,
                        VOICE_RELEASE_MS,
                    );
                    osc.start_note(current_time);
                    let ghost prev = self.oscillators@;
                    proof {
                        let nn = self.playing_notes@[i as int].0@;
                        assert forall|b: int| 0 <= b < all.len() implies #[trigger] all[b].spec_note() != nn by {
                            if all[b].spec_note() == nn {
                                assert(has_voice_for(prev, all[b].spec_note()));
                            }
                        }
                    }
                    self.oscillators.push(osc);
                    proof {
                        let nn = self.playing_notes@[i as int].0@;
                        assert(self.oscillators@[prev.len() as int] == osc);
                        assert(!has_voice_for(all, nn));
                        assert forall|x: int, y: int|
                            0 <= x < self.oscillators@.len() && 0 <= y < self.oscillators@.len()
                                && x != y implies #[trigger] self.oscillators@[x].spec_note()
                            != #[trigger] self.oscillators@[y].spec_note() by {
                            if x < prev.len() && y < prev.len() {
                                assert(prev[x].spec_note() != prev[y].spec_note());
                            } else if x < prev.len() {
                                assert(prev[x].spec_note() != nn);
                            } else if y < prev.len() {
                                assert(prev[y].spec_note() != nn);
                            }
                        }
                        assert forall|b: int|
                            0 <= b < all.len() && old(self).is_held((#[trigger] all[b]).spec_note())
                                implies has_voice_for(self.oscillators@, all[b].spec_note()) by {
                            let w = choose|x: int| 0 <= x < prev.len() && #[trigger] prev[x].spec_note() == all[b].spec_note();
                            assert(self.oscillators@[w] == prev[w]);
                        }
                        assert forall|k: int|
                            0 <= k < i + 1 && (#[trigger] self.playing_notes@[k]).1 && note_frequency(
                                upper_of(self.playing_notes@[k].0@),
                            ) is Some implies has_voice_for(self.oscillators@, self.playing_notes@[k].0@) by {
                            if k < i {
                                let w = choose|x: int| 0 <= x < prev.len() && #[trigger] prev[x].spec_note() == self.playing_notes@[k].0@;
                                assert(self.oscillators@[w] == prev[w]);
                            } else {
                                assert(self.oscillators@[prev.len() as int].spec_note() == nn);
                            }
                        }
                    }
                }
            }
            i = i + 1;
        }
        proof {
            assert forall|nn: Seq<char>|
                old(self).is_held(nn) && (has_voice_for(old(self).voices(), nn) || note_frequency(
                    upper_of(nn),
                ) is Some) implies #[trigger] has_voice_for(self.voices(), nn) by {
                lemma_binding_found(self.playing_notes@, nn, 0);
                if has_voice_for(all, nn) {
                    let b = choose|x: int| 0 <= x < all.len() && #[trigger] all[x].spec_note() == nn;
                    assert(old(self).is_held(all[b].spec_note()));
                } else {
                    let k = binding_from(self.playing_notes@, nn, 0)->0;
                    assert(self.playing_notes@[k].1);
                }
            }
        }
    }
}

/// Each voice enters the mix at a tenth of its level, for headroom.
pub const VOICE_GAIN_DIVISOR: i64 = 10;

/// Sample `j` of a block after the first `count` voices are mixed in: each
/// adds a tenth of its sample (rounded down), and the sum is held to `i32`.
/// Every voice sees the tremolo from the same position.
pub open spec fn mixed(
    voices: Seq<Oscillator>,
    tables: Wavetables,
    tremolo: TremoloEffect,
    current_time: int,
    count: nat,
    j: int,
) -> int
    decreases count,
{
    if count == 0 {
        0
    } else {
        saturate(
            mixed(voices, tables, tremolo, current_time, (count - 1) as nat, j) + voices[count
                - 1].block_sample(tables, tremolo, current_time, j, 0) / (VOICE_GAIN_DIVISOR as int),
        )
    }
}

/// Adds a tenth of each block sample to the mix.
fn mix_into(out: &mut Vec<i32>, block: &Vec<i32>)
    requires
        old(out)@.len() == block@.len(),
    ensures
        final(out)@.len() == old(out)@.len(),
        forall|j: int|
            0 <= j < block@.len() ==> #[trigger] final(out)@[j] == saturate(
                old(out)@[j] as int + block@[j] as int / (VOICE_GAIN_DIVISOR as int),
            ),
{
    let mut i: usize = 0;
    while i < block.len()
        invariant
            i <= block@.len(),
            out@.len() == block@.len(),
            forall|j: int|
                0 <= j < i ==> #[trigger] out@[j] == saturate(
                    old(out)@[j] as int + block@[j] as int / (VOICE_GAIN_DIVISOR as int),
                ),
            forall|j: int| i <= j < block@.len() ==> #[trigger] out@[j] == old(out)@[j],
        decreases block@.len() - i,
    {
        let share = div_floor(block[i] as i64, VOICE_GAIN_DIVISOR);
        let v = saturate_i64(out[i] as i64 + share);
        out.set(i, v);
        i = i + 1;
    }
}

impl NoteState {
    /// One block of `num_samples` samples from every live voice, mixed. Each
    /// voice moves on by `num_samples`; all voices see the shared tremolo
    /// from the same position, and it moves on by `num_samples` when enabled.
    pub fn render(
        &mut self,
        current_time: u64,
        num_samples: usize,
        tables: &Wavetables,
        tremolo: &mut TremoloEffect,
    ) -> (r: Vec<i32>)
        requires
            old(self).wf(),
            old(tremolo).wf(),
            tables.wf(),
            current_time + num_samples <= u64::MAX,
        ensures
            final(self).wf(),
            final(tremolo).wf(),
            r@.len() == num_samples,
            forall|j: int|
                0 <= j < num_samples ==> #[trigger] r@[j] == mixed(
                    old(self).voices(),
                    *tables,
                    *old(tremolo),
                    current_time as int,
                    old(self).voices().len(),
                    j,
                ),
            final(self).voices().len() == old(self).voices().len(),
            forall|k: int|
                0 <= k < final(self).voices().len() ==> {
                    let v = #[trigger] final(self).voices()[k];
                    let u = old(self).voices()[k];
                    &&& v.spec_note() == u.spec_note()
                    &&& v.spec_waveform() == u.spec_waveform()
                    &&& v.spec_frequency() == u.spec_frequency()
                    &&& v.spec_start_time() == u.spec_start_time()
                    &&& v.spec_envelope() == u.spec_envelope()
                    &&& v.generator().spec_phase() == phase_after(
                        u.generator().spec_phase() as int,
                        u.generator().spec_phase_inc() as int,
                        num_samples as int,
                    )
                },
            forall|n: Seq<char>| #[trigger] final(self).flag(n) == old(self).flag(n),
            forall|n: Seq<char>| #[trigger] final(self).order(n) == old(self).order(n),
            final(self).activations() == old(self).activations(),
            final(self).octave() == old(self).octave(),
            old(tremolo).same_settings(*final(tremolo)),
            final(tremolo).position() == if old(tremolo).spec_enabled() {
                position_after_steps(
                    old(tremolo).position(),
                    old(tremolo).spec_cycle(),
                    num_samples as nat,
                )
            } else {
                old(tremolo).position()
            },
    {
        let ghost trem0 = *tremolo;
        let start = tremolo.get_position();
        let mut out: Vec<i32> = vec![0; num_samples];
        let mut rest: Vec<Oscillator> = Vec::new();
        std::mem::swap(&mut rest, &mut self.oscillators);
        let ghost all = rest@;
        let count: usize = rest.len();
        let mut done: Vec<Oscillator> = Vec::new();
        let mut k: usize = 0;
        while rest.len() > 0
            invariant
                k <= count,
                count == all.len(),
                all == old(self).oscillators@,
                rest@ == all.subrange(k as int, count as int),
                done@.len() == k,
                self.playing_notes == old(self).playing_notes,
                self.activation_order == old(self).activation_order,
                self.activations == old(self).activations,
                self.octave_shift == old(self).octave_shift,
                tables.wf(),
                current_time + num_samples <= u64::MAX,
                notes_distinct(all),
                forall|i: int| 0 <= i < all.len() ==> #[trigger] all[i].wf(),
                forall|i: int|
                    0 <= i < k ==> {
                        let v = #[trigger] done@[i];
                        let u = all[i];
                        &&& v.wf()
                        &&& v.spec_note() == u.spec_note()
                        &&& v.spec_waveform() == u.spec_waveform()
                        &&& v.spec_frequency() == u.spec_frequency()
                        &&& v.spec_start_time() == u.spec_start_time()
                        &&& v.spec_envelope() == u.spec_envelope()
                        &&& v.generator().spec_phase() == phase_after(
                            u.generator().spec_phase() as int,
                            u.generator().spec_phase_inc() as int,
                            num_samples as int,
                        )
                    },
                out@.len() == num_samples,
                forall|j: int|
                    0 <= j < num_samples ==> #[trigger] out@[j] == mixed(
                        all,
                        *tables,
                        trem0,
                        current_time as int,
                        k as nat,
                        j,
                    ),
                tremolo.wf(),
                trem0.same_settings(*tremolo),
                start.0 as int == trem0.spec_index(),
                start.1 as int == trem0.spec_counter(),
                start.0 < 1024,
                start.1 < u64::MAX,
            decreases rest@.len(),
        {
            let mut v = rest.remove(0);
            let ghost v0 = v;
            tremolo.set_position(start);
            let ghost trem_k = *tremolo;
            let block = v.generate_wave(current_time, num_samples, tables, tremolo);
            proof {
                assert(v0 == all[k as int]) by {
                    assert(rest@ == all.subrange(k as int + 1, count as int));
                }
                assert forall|j: int| 0 <= j < num_samples implies #[trigger] block@[j]
                    == all[k as int].block_sample(*tables, trem0, current_time as int, j, 0) by {
                    assert(trem_k.position() == trem0.position());
                }
            }
            mix_into(&mut out, &block);
            done.push(v);
            k = k + 1;
        }
        proof {
            assert forall|x: int, y: int|
                0 <= x < done@.len() && 0 <= y < done@.len() && x != y implies #[trigger] done@[x].spec_note()
                != #[trigger] done@[y].spec_note() by {
                assert(all[x].spec_note() != all[y].spec_note());
            }
        }
        self.oscillators = done;
        tremolo.set_position(start);
        tremolo.advance(num_samples);
        out
    }
}

/// Switching a note on a second time changes no flag, and the next block
/// holds at most one voice for that note (for any note, in fact).
pub proof fn lemma_note_on_twice(
    p0: NoteState,
    p1: NoteState,
    p2: NoteState,
    p3: NoteState,
    note: Seq<char>,
    waveform: OscillatorWaveform,
    current_time: u64,
    sample_rate: u32,
)
    requires
        flags_bound(p0, p1, note, true),
        flags_bound(p1, p2, note, true),
        reconciled(p2, p3, waveform, current_time, sample_rate),
    ensures
        forall|n: Seq<char>| #[trigger] p2.flag(n) == p1.flag(n),
        forall|i: int, j: int|
            0 <= i < p3.voices().len() && 0 <= j < p3.voices().len() && p3.voices()[i].spec_note()
                == note && p3.voices()[j].spec_note() == note ==> i == j,
{
    assert forall|n: Seq<char>| #[trigger] p2.flag(n) == p1.flag(n) by {
        assert(p1.flag(n) == bound_to(note, true, n, p0.flag(n)));
        assert(p2.flag(n) == bound_to(note, true, n, p1.flag(n)));
    }
    assert forall|i: int, j: int|
        0 <= i < p3.voices().len() && 0 <= j < p3.voices().len() && p3.voices()[i].spec_note()
            == note && p3.voices()[j].spec_note() == note implies i == j by {
        if i != j {
            assert(p3.voices()[i].spec_note() != p3.voices()[j].spec_note());
        }
    }
}

/// A note switched off has no voice once the next block is reconciled, while
/// every other held note that had a voice keeps one.
pub proof fn lemma_note_off_removes_voice(
    p0: NoteState,
    p1: NoteState,
    p2: NoteState,
    note: Seq<char>,
    waveform: OscillatorWaveform,
    current_time: u64,
    sample_rate: u32,
)
    requires
        flags_bound(p0, p1, note, false),
        reconciled(p1, p2, waveform, current_time, sample_rate),
    ensures
        !has_voice_for(p2.voices(), note),
        forall|n: Seq<char>|
            n != note && p0.is_held(n) && has_voice_for(p1.voices(), n) ==> #[trigger]
                has_voice_for(p2.voices(), n),
{
    assert(p1.flag(note) == bound_to(note, false, note, p0.flag(note)));
    if has_voice_for(p2.voices(), note) {
        let j = choose|j: int| 0 <= j < p2.voices().len() && #[trigger] p2.voices()[j].spec_note() == note;
        assert(p1.is_held(p2.voices()[j].spec_note()));
    }
    assert forall|n: Seq<char>|
        n != note && p0.is_held(n) && has_voice_for(p1.voices(), n) implies #[trigger]
            has_voice_for(p2.voices(), n) by {
        assert(p1.flag(n) == bound_to(note, false, n, p0.flag(n)));
    }
}

/// Repeated octave changes in one direction saturate: "up" from any shift in
/// [-2, 2] gives `min(shift + n, 2)` after `n` changes, "down" gives
/// `max(shift - n, -2)`, and the shift never leaves [-2, 2].
pub proof fn lemma_octave_saturates(shift: int, n: nat)
    requires
        -MAX_OCTAVE_SHIFT <= shift <= MAX_OCTAVE_SHIFT,
    ensures
        repeated_shift(shift, "up"@, n) == if shift + n > 2 {
            2
        } else {
            shift + n
        },
        repeated_shift(shift, "down"@, n) == if shift - n < -2 {
            -2
        } else {
            shift - n
        },
    decreases n,
{
    reveal_strlit("up");
    reveal_strlit("down");
    assert("up"@ != "down"@) by {
        assert("up"@[0] != "down"@[0]);
    }
    if n > 0 {
        lemma_octave_saturates(shift, (n - 1) as nat);
    }
}

} // verus!
