//! Note names, scales, input events and the key bindings that produce them.
use vstd::prelude::*;

use crate::waveform::OscillatorWaveform;

verus! {

/// Length of the chromatic note sequence: twelve semitones and the root an
/// octave up.
pub const NOTE_COUNT: usize = 13;

/// The chromatic note sequence.
pub open spec fn note_name(i: int) -> Seq<char> {
    if i == 0 {
        "C"@
    } else if i == 1 {
        "C_SHARP"@
    } else if i == 2 {
        "D"@
    } else if i == 3 {
        "D_SHARP"@
    } else if i == 4 {
        "E"@
    } else if i == 5 {
        "F"@
    } else if i == 6 {
        "F_SHARP"@
    } else if i == 7 {
        "G"@
    } else if i == 8 {
        "G_SHARP"@
    } else if i == 9 {
        "A"@
    } else if i == 10 {
        "A_SHARP"@
    } else if i == 11 {
        "B"@
    } else {
        "C_HIGH"@
    }
}

/// The frequency of sequence entry `i` in millihertz: 440 Hz * 2^((i - 9) / 12),
/// rounded to the nearest millihertz.
pub open spec fn note_frequency_at(i: int) -> u64 {
    if i == 0 {
        261626
    } else if i == 1 {
        277183
    } else if i == 2 {
        293665
    } else if i == 3 {
        311127
    } else if i == 4 {
        329628
    } else if i == 5 {
        349228
    } else if i == 6 {
        369994
    } else if i == 7 {
        391995
    } else if i == 8 {
        415305
    } else if i == 9 {
        440000
    } else if i == 10 {
        466164
    } else if i == 11 {
        493883
    } else {
        523251
    }
}

/// The first position at or after `from` whose name is `name`.
pub open spec fn note_position_from(name: Seq<char>, from: int) -> Option<int>
    decreases NOTE_COUNT - from,
{
    if from < 0 || from >= NOTE_COUNT {
        None
    } else if note_name(from) == name {
        Some(from)
    } else {
        note_position_from(name, from + 1)
    }
}

/// The position of a note name in the sequence.
pub open spec fn note_position(name: Seq<char>) -> Option<int> {
    note_position_from(name, 0)
}

/// The frequency of a note name, as it is written in the sequence.
pub open spec fn note_frequency(name: Seq<char>) -> Option<u64> {
    match note_position(name) {
        Some(i) => Some(note_frequency_at(i)),
        None => None,
    }
}

/// Every note frequency is at most that of the high C.
pub proof fn lemma_note_frequency_bound(name: Seq<char>)
    ensures
        note_frequency(name) matches Some(f) ==> f <= 523251,
{
}

/// What `str::to_uppercase` returns for a string.
pub uninterp spec fn upper_of(s: Seq<char>) -> Seq<char>;

/// Relies on `str::to_uppercase`: its result depends on the characters alone.
#[verifier::external_body]
fn uppercase(s: &str) -> (r: String)
    ensures
        r@ == upper_of(s@),
{
    s.to_uppercase()
}

/// The name at position `i` of the note sequence.
pub fn note_name_at(i: usize) -> (r: String)
    requires
        i < NOTE_COUNT,
    ensures
        r@ == note_name(i as int),
{
    let s = if i == 0 {
        "C"
    } else if i == 1 {
        "C_SHARP"
    } else if i == 2 {
        "D"
    } else if i == 3 {
        "D_SHARP"
    } else if i == 4 {
        "E"
    } else if i == 5 {
        "F"
    } else if i == 6 {
        "F_SHARP"
    } else if i == 7 {
        "G"
    } else if i == 8 {
        "G_SHARP"
    } else if i == 9 {
        "A"
    } else if i == 10 {
        "A_SHARP"
    } else if i == 11 {
        "B"
    } else {
        "C_HIGH"
    };
    String::from_str(s)
}

/// The frequency of position `i` in millihertz.
pub fn note_frequency_at_index(i: usize) -> (r: u64)
    requires
        i < NOTE_COUNT,
    ensures
        r == note_frequency_at(i as int),
{
    if i == 0 {
        261626
    } else if i == 1 {
        277183
    } else if i == 2 {
        293665
    } else if i == 3 {
        311127
    } else if i == 4 {
        329628
    } else if i == 5 {
        349228
    } else if i == 6 {
        369994
    } else if i == 7 {
        391995
    } else if i == 8 {
        415305
    } else if i == 9 {
        440000
    } else if i == 10 {
        466164
    } else if i == 11 {
        493883
    } else {
        523251
    }
}

/// The position of a note name in the sequence, if it is there.
pub fn find_note_position(name: &String) -> (r: Option<usize>)
    ensures
        r matches Some(i) ==> note_position(name@) == Some(i as int) && i < NOTE_COUNT,
        r is None ==> note_position(name@) is None,
{
    let mut i: usize = 0;
    while i < NOTE_COUNT
        invariant
            i <= NOTE_COUNT,
            note_position(name@) == note_position_from(name@, i as int),
        decreases NOTE_COUNT - i,
    {
        let candidate = note_name_at(i);
        if candidate == *name {
            return Some(i);
        }
        i = i + 1;
    }
    None
}

/// The frequency in millihertz of a note name written as in the sequence
/// (upper case), or `None` when the name is not in it.
pub fn frequency_of_name(upper: &String) -> (r: Option<u64>)
    ensures
        r == note_frequency(upper@),
{
    match find_note_position(upper) {
        Some(i) => Some(note_frequency_at_index(i)),
        None => None,
    }
}

/// One step through the sequence: `n` moved on by `step` semitones, wrapping
/// around its 13 entries.
pub open spec fn step_note(n: int, step: int) -> int {
    (n + step) % (NOTE_COUNT as int)
}

/// The sequence position reached after `k` scale steps from `root`, each step
/// taking the next interval in turn and wrapping through the interval list.
pub open spec fn position_after(root: int, intervals: Seq<i32>, k: nat) -> int
    decreases k,
{
    if k == 0 {
        root
    } else {
        step_note(
            position_after(root, intervals, (k - 1) as nat),
            intervals[(k - 1) % intervals.len() as int] as int,
        )
    }
}

/// A root note and the semitone steps of the scale built on it.
#[derive(Debug)]
pub struct Scale {
    pub root_note: String,
    pub intervals: Vec<i32>,
}

impl Scale {
    /// The sequence position of the root; an unknown root counts as C.
    pub open spec fn root_position(&self) -> int {
        match note_position(self.root_note@) {
            Some(i) => i,
            None => 0,
        }
    }

    /// The note at scale degree `position` (1 is the root), or `None` for
    /// degree 0 or a scale without intervals.
    pub fn get_note_from_position(&self, position: usize) -> (r: Option<String>)
        ensures
            r is None <==> position == 0 || self.intervals@.len() == 0,
            r matches Some(n) ==> n@ == note_name(
                position_after(self.root_position(), self.intervals@, (position - 1) as nat),
            ),
    {
        if position == 0 || self.intervals.len() == 0 {
            return None;
        }
        let root_index: usize = match find_note_position(&self.root_note) {
            Some(i) => i,
            None => 0,
        };
        let mut note_index: usize = root_index;
        let mut idx: usize = 0;
        while idx < position - 1
            invariant
                self.intervals@.len() > 0,
                0 < position,
                idx <= position - 1,
                note_index < NOTE_COUNT,
                note_index == position_after(self.root_position(), self.intervals@, idx as nat),
            decreases position - 1 - idx,
        {
            let step = self.intervals[idx % self.intervals.len()];
            let sum: i64 = note_index as i64 + step as i64;
            let wrapped: i64 = match sum.checked_rem_euclid(NOTE_COUNT as i64) {
                Some(m) => m,
                None => 0,
            };
            proof {
                vstd::arithmetic::div_mod::lemma_mod_bound(sum as int, 13);
            }
            note_index = wrapped as usize;
            idx = idx + 1;
        }
        Some(note_name_at(note_index))
    }

    /// Moves the scale to a new root; the intervals stay.
    pub fn change_root_note(&mut self, new_root: String)
        ensures
            final(self).root_note == new_root,
            final(self).intervals == old(self).intervals,
    {
        self.root_note = new_root;
    }

    /// The frequency in millihertz of a note name in any letter case, or
    /// `None` when the name is not in the note sequence.
    pub fn calculate_frequency(&self, note: &str) -> (r: Option<u64>)
        ensures
            r == note_frequency(upper_of(note@)),
    {
        let upper = uppercase(note);
        frequency_of_name(&upper)
    }
}

/// An input event, already resolved from a key.
#[derive(Debug)]
pub enum NoteEvent {
    On(String),
    Off(String),
    ChangeWaveform(OscillatorWaveform),
    ChangeOctave(String),
    ToggleTremolo,
    ChangeKey(String),
}

/// An event with its strings seen as character sequences.
pub enum EventView {
    On(Seq<char>),
    Off(Seq<char>),
    ChangeWaveform(OscillatorWaveform),
    ChangeOctave(Seq<char>),
    ToggleTremolo,
    ChangeKey(Seq<char>),
}

impl View for NoteEvent {
    type V = EventView;

    open spec fn view(&self) -> EventView {
        match self {
            NoteEvent::On(n) => EventView::On(n@),
            NoteEvent::Off(n) => EventView::Off(n@),
            NoteEvent::ChangeWaveform(w) => EventView::ChangeWaveform(*w),
            NoteEvent::ChangeOctave(d) => EventView::ChangeOctave(d@),
            NoteEvent::ToggleTremolo => EventView::ToggleTremolo,
            NoteEvent::ChangeKey(k) => EventView::ChangeKey(k@),
        }
    }
}

/// An optional event seen through its view.
pub open spec fn event_view(e: Option<NoteEvent>) -> Option<EventView> {
    match e {
        Some(e) => Some(e@),
        None => None,
    }
}

/// The key bindings and action keys, as read from the configuration.
#[derive(Debug)]
pub struct Config {
    pub keybindings: KeyBindings,
    pub action_keys: ActionKeys,
}

#[derive(Debug)]
pub struct KeyBindings {
    pub notes: NoteKeys,
    pub octave: OctaveKeys,
    pub bass_notes: BassNoteKeys,
    pub key_change: KeyChangeKeys,
    pub tremolo: TremoloKeys,
}

#[derive(Debug)]
pub struct TremoloKeys {
    pub toggle: String,
}

/// Each binding pairs a key name with a waveform.
#[derive(Debug)]
pub struct WaveformKeys {
    pub keys: Vec<(String, OscillatorWaveform)>,
}

/// Each binding pairs a key name with a note name.
#[derive(Debug)]
pub struct NoteKeys {
    pub keys: Vec<(String, String)>,
}

#[derive(Debug)]
pub struct OctaveKeys {
    pub up: String,
    pub down: String,
}

#[derive(Debug)]
pub struct BassNoteKeys {
    pub keys: Vec<(String, String)>,
}

#[derive(Debug)]
pub struct KeyChangeKeys {
    pub keys: Vec<(String, String)>,
}

#[derive(Debug)]
pub struct ActionKeys {
    pub toggle_notes: Vec<(String, String)>,
    pub change_waveform: Vec<(String, OscillatorWaveform)>,
}

/// The first binding at or after `from` whose key is `key`.
pub open spec fn binding_from<V>(b: Seq<(String, V)>, key: Seq<char>, from: int) -> Option<int>
    decreases b.len() - from,
{
    if from < 0 || from >= b.len() {
        None
    } else if b[from].0@ == key {
        Some(from)
    } else {
        binding_from(b, key, from + 1)
    }
}

/// The value bound to `key`: that of its first binding.
pub open spec fn lookup<V>(b: Seq<(String, V)>, key: Seq<char>) -> Option<V> {
    match binding_from(b, key, 0) {
        Some(i) => Some(b[i].1),
        None => None,
    }
}

/// The note bound to `key`, seen as characters.
pub open spec fn lookup_note(b: Seq<(String, String)>, key: Seq<char>) -> Option<Seq<char>> {
    match lookup(b, key) {
        Some(n) => Some(n@),
        None => None,
    }
}

/// The event a pressed key stands for. `upper_key` is the key in upper case,
/// tried against the note keys while shift is held. In order: a waveform
/// key, octave up, octave down, the tremolo switch, a note key, a note key in
/// upper case under shift, a bass note key; anything else is no event.
pub open spec fn action_for(
    config: Config,
    key: Seq<char>,
    upper_key: Seq<char>,
    shift_pressed: bool,
) -> Option<EventView> {
    let notes = config.keybindings.notes.keys@;
    match lookup(config.action_keys.change_waveform@, key) {
        Some(w) => Some(EventView::ChangeWaveform(w)),
        None => if key == config.keybindings.octave.up@ {
            Some(EventView::ChangeOctave("up"@))
        } else if key == config.keybindings.octave.down@ {
            Some(EventView::ChangeOctave("down"@))
        } else if key == config.keybindings.tremolo.toggle@ {
            Some(EventView::ToggleTremolo)
        } else if lookup_note(notes, key) is Some {
            Some(EventView::On(lookup_note(notes, key)->0))
        } else if shift_pressed && lookup_note(notes, upper_key) is Some {
            Some(EventView::On(lookup_note(notes, upper_key)->0))
        } else {
            match lookup_note(config.keybindings.bass_notes.keys@, key) {
                Some(n) => Some(EventView::On(n)),
                None => None,
            }
        },
    }
}

/// The index of the first binding of `key`.
pub fn find_binding<V>(b: &Vec<(String, V)>, key: &String) -> (r: Option<usize>)
    ensures
        r matches Some(i) ==> binding_from(b@, key@, 0) == Some(i as int) && i < b@.len(),
        r is None ==> binding_from(b@, key@, 0) is None,
{
    let mut i: usize = 0;
    while i < b.len()
        invariant
            i <= b@.len(),
            binding_from(b@, key@, 0) == binding_from(b@, key@, i as int),
        decreases b@.len() - i,
    {
        if b[i].0 == *key {
            return Some(i);
        }
        i = i + 1;
    }
    None
}

/// The note bound to `key`.
pub fn find_note(b: &Vec<(String, String)>, key: &String) -> (r: Option<String>)
    ensures
        event_note(r) == lookup_note(b@, key@),
{
    match find_binding(b, key) {
        Some(i) => Some(b[i].1.clone()),
        None => None,
    }
}

/// An optional note seen as characters.
pub open spec fn event_note(n: Option<String>) -> Option<Seq<char>> {
    match n {
        Some(n) => Some(n@),
        None => None,
    }
}

/// The event for a pressed key, given the key also in upper case.
pub fn action_for_key(key: &str, upper_key: &str, config: &Config, shift_pressed: bool) -> (r:
    Option<NoteEvent>)
    ensures
        event_view(r) == action_for(*config, key@, upper_key@, shift_pressed),
{
    let key = String::from_str(key);
    let waveforms = &config.action_keys.change_waveform;
    if let Some(i) = find_binding(waveforms, &key) {
        return Some(NoteEvent::ChangeWaveform(waveforms[i].1));
    }
    if key == config.keybindings.octave.up {
        return Some(NoteEvent::ChangeOctave(String::from_str("up")));
    }
    if key == config.keybindings.octave.down {
        return Some(NoteEvent::ChangeOctave(String::from_str("down")));
    }
    if key == config.keybindings.tremolo.toggle {
        return Some(NoteEvent::ToggleTremolo);
    }
    if let Some(note) = find_note(&config.keybindings.notes.keys, &key) {
        return Some(NoteEvent::On(note));
    }
    if shift_pressed {
        let upper = String::from_str(upper_key);
        if let Some(note) = find_note(&config.keybindings.notes.keys, &upper) {
            return Some(NoteEvent::On(note));
        }
    }
    if let Some(note) = find_note(&config.keybindings.bass_notes.keys, &key) {
        return Some(NoteEvent::On(note));
    }
    None
}

/// The event for a pressed key, with the shifted form of a key taken as its
/// upper-case spelling.
pub fn keycode_to_action(key: &str, config: &Config, shift_pressed: bool) -> (r: Option<NoteEvent>)
    ensures
        event_view(r) == action_for(*config, key@, upper_of(key@), shift_pressed),
{
    let upper = uppercase(key);
    action_for_key(key, upper.as_str(), config, shift_pressed)
}

} // verus!
