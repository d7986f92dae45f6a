use visiosynth::keys::{
    keycode_to_action, ActionKeys, BassNoteKeys, Config, KeyBindings, KeyChangeKeys, NoteEvent,
    NoteKeys, OctaveKeys, Scale, TremoloKeys,
};
use visiosynth::note_state::NoteState;
use visiosynth::tremolo::{Tremolo, TremoloEffect};
use visiosynth::waveform::{OscillatorWaveform, Wavetables, WAVETABLE_SIZE};
use visiosynth::UNITY;

fn sine_table() -> Vec<i32> {
    (0..WAVETABLE_SIZE)
        .map(|i| {
            let x = (i as f64 * 2.0 * std::f64::consts::PI / WAVETABLE_SIZE as f64).sin();
            (x * UNITY as f64).round() as i32
        })
        .collect()
}

fn tables() -> Wavetables {
    Wavetables::new(sine_table()).unwrap()
}

fn c_major() -> Scale {
    Scale { root_note: "C".to_string(), intervals: vec![2, 2, 1, 2, 2, 2, 1] }
}

fn pairs(items: &[(&str, &str)]) -> Vec<(String, String)> {
    items.iter().map(|(k, v)| (k.to_string(), v.to_string())).collect()
}

fn config() -> Config {
    Config {
        keybindings: KeyBindings {
            notes: NoteKeys { keys: pairs(&[("a", "C"), ("s", "D"), ("D", "E")]) },
            octave: OctaveKeys { up: "x".to_string(), down: "z".to_string() },
            bass_notes: BassNoteKeys { keys: pairs(&[("q", "C")]) },
            key_change: KeyChangeKeys { keys: pairs(&[("1", "G")]) },
            tremolo: TremoloKeys { toggle: "t".to_string() },
        },
        action_keys: ActionKeys {
            toggle_notes: Vec::new(),
            change_waveform: vec![("F1".to_string(), OscillatorWaveform::Square)],
        },
    }
}

fn note_of(e: Option<NoteEvent>) -> Option<String> {
    match e {
        Some(NoteEvent::On(n)) => Some(n),
        _ => None,
    }
}

#[test]
fn calculate_frequency_of_a_is_440() {
    let s = c_major();
    assert_eq!(s.calculate_frequency("A"), Some(440_000));
}

#[test]
fn calculate_frequency_ignores_case() {
    let s = c_major();
    assert_eq!(s.calculate_frequency("a"), Some(440_000));
    assert_eq!(s.calculate_frequency("c_sharp"), Some(277_183));
}

#[test]
fn calculate_frequency_table() {
    let s = c_major();
    assert_eq!(s.calculate_frequency("C"), Some(261_626));
    assert_eq!(s.calculate_frequency("A_SHARP"), Some(466_164));
    assert_eq!(s.calculate_frequency("C_HIGH"), Some(523_251));
    assert_eq!(s.calculate_frequency("H"), None);
    assert_eq!(s.calculate_frequency("C4"), None);
    assert_eq!(s.calculate_frequency(""), None);
}

#[test]
fn note_from_position_walks_the_scale() {
    let s = c_major();
    let expected = ["C", "D", "E", "F", "G", "A", "B", "C_HIGH", "C_SHARP"];
    for (i, name) in expected.iter().enumerate() {
        assert_eq!(s.get_note_from_position(i + 1), Some(name.to_string()));
    }
    assert_eq!(s.get_note_from_position(0), None);
    let empty = Scale { root_note: "C".to_string(), intervals: Vec::new() };
    assert_eq!(empty.get_note_from_position(3), None);
}

#[test]
fn note_from_position_negative_steps_and_unknown_root() {
    let s = Scale { root_note: "nowhere".to_string(), intervals: vec![-1] };
    assert_eq!(s.get_note_from_position(1), Some("C".to_string()));
    assert_eq!(s.get_note_from_position(2), Some("C_HIGH".to_string()));
    let mut s = c_major();
    s.change_root_note("A".to_string());
    assert_eq!(s.root_note, "A");
    assert_eq!(s.get_note_from_position(2), Some("B".to_string()));
    assert_eq!(s.get_note_from_position(3), Some("C".to_string()));
}

#[test]
fn key_actions_in_order() {
    let c = config();
    assert!(matches!(keycode_to_action("F1", &c, false), Some(NoteEvent::ChangeWaveform(OscillatorWaveform::Square))));
    match keycode_to_action("x", &c, false) {
        Some(NoteEvent::ChangeOctave(d)) => assert_eq!(d, "up"),
        _ => panic!("expected octave up"),
    }
    match keycode_to_action("z", &c, false) {
        Some(NoteEvent::ChangeOctave(d)) => assert_eq!(d, "down"),
        _ => panic!("expected octave down"),
    }
    assert!(matches!(keycode_to_action("t", &c, false), Some(NoteEvent::ToggleTremolo)));
    assert_eq!(note_of(keycode_to_action("a", &c, false)), Some("C".to_string()));
    assert_eq!(note_of(keycode_to_action("q", &c, false)), Some("C".to_string()));
    assert!(keycode_to_action("1", &c, false).is_none());
    assert!(keycode_to_action("nothing", &c, true).is_none());
}

#[test]
fn shifted_key_uses_upper_case_binding() {
    let c = config();
    assert_eq!(note_of(keycode_to_action("d", &c, true)), Some("E".to_string()));
    assert!(keycode_to_action("d", &c, false).is_none());
    assert_eq!(note_of(keycode_to_action("s", &c, true)), Some("D".to_string()));
}

#[test]
fn tremolo_disabled_is_identity() {
    let t = tables();
    let mut e = TremoloEffect::builder().depth(900).enabled(false).build(44_100, &t);
    for s in [-UNITY, -1, 0, 7, 12345, UNITY, i32::MAX, i32::MIN].iter() {
        assert_eq!(e.process(*s, 44_100), *s);
    }
}

#[test]
fn tremolo_zero_depth_is_identity() {
    let t = tables();
    let mut e = TremoloEffect::builder().rate(44_100_000).depth(0).enabled(true).build(44_100, &t);
    for i in 0..3000 {
        let s = (i * 37 % 65537) - UNITY;
        assert_eq!(e.process(s, 44_100), s);
    }
}

#[test]
fn tremolo_toggle_twice_restores() {
    let t = tables();
    let mut e = TremoloEffect::builder().build(44_100, &t);
    assert!(!e.is_enabled());
    e.toggle();
    assert!(e.is_enabled());
    e.toggle();
    assert!(!e.is_enabled());
    assert_eq!(e.get_rate(), 5_000);
    assert_eq!(e.get_depth(), 500);
}

#[test]
fn tremolo_gain_follows_table() {
    let t = tables();
    let sine = sine_table();
    // One sample per table entry, full depth: gain i is 1 - sin(i).
    let mut e = TremoloEffect::builder().rate(44_100_000).depth(1000).enabled(true).build(44_100, &t);
    assert_eq!(e.process(UNITY, 44_100), UNITY);
    assert_eq!(e.process(UNITY, 44_100), UNITY - sine[1]);
    assert_eq!(e.process(UNITY, 44_100), UNITY - sine[2]);
    // At a quarter period the gain is 1 - 1 = 0.
    for _ in 3..256 {
        e.process(UNITY, 44_100);
    }
    assert_eq!(e.process(1000, 44_100), 0);
}

#[test]
fn tremolo_depth_is_stored_as_given() {
    let t = tables();
    let sine = sine_table();
    let mut e = TremoloEffect::builder().rate(44_100_000).depth(2000).enabled(true).build(44_100, &t);
    assert_eq!(e.get_depth(), 2000);
    // Depth 2.0: gain 1 - 2 sin at entry 256 (a quarter period) is -1.
    for _ in 0..256 {
        e.process(UNITY, 44_100);
    }
    assert_eq!(e.process(1000, 44_100), (1000i64 * (UNITY as i64 - 2 * sine[256] as i64)).div_euclid(UNITY as i64) as i32);
    assert_eq!(e.get_rate(), 44_100_000);
    e.set_depth(250);
    assert_eq!(e.get_depth(), 250);
    e.set_rate(7_500);
    assert_eq!(e.get_rate(), 7_500);
    assert_eq!(e.get_depth(), 250);
    e.set_depth(u32::MAX);
    assert_eq!(e.get_depth(), u32::MAX);
    assert_eq!(e.process(0, 44_100), 0);
}

#[test]
fn default_tremolo_steps_every_8820_samples() {
    let t = tables();
    let mut e = TremoloEffect::builder().enabled(true).build(44_100, &t);
    assert_eq!(e.get_position(), (0, 0));
    for _ in 0..8819 {
        e.process(UNITY, 44_100);
    }
    assert_eq!(e.get_position(), (0, 8819));
    e.process(UNITY, 44_100);
    assert_eq!(e.get_position(), (1, 0));
}

#[test]
fn tremolo_holds_entry_for_a_step() {
    let sine = sine_table();
    // Each table entry lasts sample_rate / rate samples: three here.
    let mut tr = Tremolo::new(1_000, 1000, 3, &sine);
    assert_eq!(tr.process(UNITY, 3), UNITY);
    assert_eq!(tr.process(UNITY, 3), UNITY);
    assert_eq!(tr.process(UNITY, 3), UNITY);
    assert_eq!(tr.process(UNITY, 3), UNITY - sine[1]);
    tr.reset();
    assert_eq!(tr.process(UNITY, 3), UNITY);
}

#[test]
fn voice_pool_idempotent_note_on() {
    let scale = c_major();
    let mut pool = NoteState::new();
    pool.note_on("C".to_string());
    pool.note_on("C".to_string());
    pool.reconcile(&scale, OscillatorWaveform::Sine, 0, 44_100);
    assert_eq!(pool.oscillators().len(), 1);
    pool.note_on("C".to_string());
    pool.reconcile(&scale, OscillatorWaveform::Sine, 512, 44_100);
    assert_eq!(pool.oscillators().len(), 1);
}

#[test]
fn voice_pool_note_off_removes_voice() {
    let scale = c_major();
    let mut pool = NoteState::new();
    pool.note_on("C".to_string());
    pool.note_on("E".to_string());
    pool.reconcile(&scale, OscillatorWaveform::Sine, 0, 44_100);
    assert_eq!(pool.oscillators().len(), 2);
    pool.note_off("C".to_string());
    pool.reconcile(&scale, OscillatorWaveform::Sine, 512, 44_100);
    assert_eq!(pool.oscillators().len(), 1);
    assert_eq!(pool.oscillators()[0].get_note(), "E");
    assert!(!pool.is_playing(&"C".to_string()));
    assert!(pool.is_playing(&"E".to_string()));
}

#[test]
fn voice_pool_unknown_note_gets_no_voice() {
    let scale = c_major();
    let mut pool = NoteState::new();
    pool.note_on("C4".to_string());
    pool.reconcile(&scale, OscillatorWaveform::Sine, 0, 44_100);
    assert_eq!(pool.oscillators().len(), 0);
    assert!(pool.is_playing(&"C4".to_string()));
}

#[test]
fn voice_pool_applies_octave_and_waveform() {
    let scale = c_major();
    let mut pool = NoteState::new();
    pool.change_octave("up".to_string());
    pool.note_on("A".to_string());
    pool.reconcile(&scale, OscillatorWaveform::Sine, 0, 44_100);
    assert_eq!(pool.oscillators()[0].get_frequency(), 880_000);
    pool.reconcile(&scale, OscillatorWaveform::Square, 512, 44_100);
    assert_eq!(pool.oscillators()[0].get_waveform(), OscillatorWaveform::Square);
    assert_eq!(pool.oscillators()[0].get_frequency(), 880_000);
    pool.change_octave("down".to_string());
    pool.change_octave("down".to_string());
    pool.change_octave("down".to_string());
    pool.note_on("C".to_string());
    pool.reconcile(&scale, OscillatorWaveform::Square, 1024, 44_100);
    let c = pool.oscillators().iter().find(|o| o.get_note() == "C").unwrap();
    assert_eq!(c.get_frequency(), 261_626 / 4);
}

#[test]
fn octave_clamps_at_two() {
    let mut pool = NoteState::new();
    for _ in 0..7 {
        pool.change_octave("up".to_string());
        assert!(pool.get_octave_shift() <= 2);
    }
    assert_eq!(pool.get_octave_shift(), 2);
    for _ in 0..9 {
        pool.change_octave("down".to_string());
        assert!(pool.get_octave_shift() >= -2);
    }
    assert_eq!(pool.get_octave_shift(), -2);
    pool.change_octave("sideways".to_string());
    assert_eq!(pool.get_octave_shift(), -2);
}

#[test]
fn find_active_note_is_most_recent_held() {
    let mut pool = NoteState::new();
    assert_eq!(pool.find_active_note(), None);
    pool.note_on("C".to_string());
    pool.note_on("D".to_string());
    assert_eq!(pool.find_active_note(), Some("D".to_string()));
    pool.note_off("D".to_string());
    assert_eq!(pool.find_active_note(), Some("C".to_string()));
    pool.note_on("D".to_string());
    pool.note_on("C".to_string());
    assert_eq!(pool.find_active_note(), Some("C".to_string()));
    pool.note_off("C".to_string());
    pool.note_off("D".to_string());
    assert_eq!(pool.find_active_note(), None);
}

#[test]
fn handle_event_dispatches() {
    let t = tables();
    let mut pool = NoteState::new();
    let mut wave = OscillatorWaveform::Silence;
    let mut trem = TremoloEffect::builder().build(44_100, &t);
    let mut scale = c_major();
    pool.handle_event(NoteEvent::On("C".to_string()), &mut wave, &mut trem, &mut scale);
    assert!(pool.is_playing(&"C".to_string()));
    pool.handle_event(NoteEvent::Off("C".to_string()), &mut wave, &mut trem, &mut scale);
    assert!(!pool.is_playing(&"C".to_string()));
    pool.handle_event(NoteEvent::ChangeWaveform(OscillatorWaveform::Triangle), &mut wave, &mut trem, &mut scale);
    assert_eq!(wave, OscillatorWaveform::Triangle);
    pool.handle_event(NoteEvent::ChangeOctave("up".to_string()), &mut wave, &mut trem, &mut scale);
    assert_eq!(pool.get_octave_shift(), 1);
    pool.handle_event(NoteEvent::ToggleTremolo, &mut wave, &mut trem, &mut scale);
    assert!(trem.is_enabled());
    pool.handle_event(NoteEvent::ChangeKey("G".to_string()), &mut wave, &mut trem, &mut scale);
    assert_eq!(scale.root_note, "G");
}

#[test]
fn pool_add_and_remove_oscillators() {
    let mut pool = NoteState::new();
    let o = visiosynth::oscillator::Oscillator::builder().build();
    pool.add_oscillator(o);
    let o = visiosynth::oscillator::Oscillator::builder().frequency(1).build();
    pool.add_oscillator(o);
    assert_eq!(pool.oscillators().len(), 1);
    assert_eq!(pool.oscillators()[0].get_frequency(), 1);
    pool.remove_oscillator("B");
    assert_eq!(pool.oscillators().len(), 1);
    pool.remove_oscillator("A4");
    assert_eq!(pool.oscillators().len(), 0);
}

#[test]
fn render_mixes_voices_at_a_tenth() {
    let t = tables();
    let scale = c_major();
    let mut trem = TremoloEffect::builder().build(44_100, &t);
    let mut pool = NoteState::new();
    let out = pool.render(0, 64, &t, &mut trem);
    assert_eq!(out, vec![0; 64]);
    pool.note_on("C".to_string());
    pool.reconcile(&scale, OscillatorWaveform::Square, 0, 44_100);
    let out = pool.render(0, 64, &t, &mut trem);
    assert_eq!(out.len(), 64);
    // Square wave at full level times the attack ramp, a tenth in the mix.
    let attack = 22_050i64;
    for (i, &s) in out.iter().enumerate() {
        let env = (UNITY as i64 * i as i64) / attack;
        assert_eq!(s as i64, env / 10);
    }
    pool.note_on("E".to_string());
    pool.reconcile(&scale, OscillatorWaveform::Silence, 64, 44_100);
    let out = pool.render(64, 64, &t, &mut trem);
    assert_eq!(out, vec![0; 64]);
}

#[test]
fn render_moves_the_shared_tremolo_once_per_block() {
    let t = tables();
    let scale = c_major();
    let mut trem = TremoloEffect::builder().rate(44_100_000).depth(1000).enabled(true).build(44_100, &t);
    let mut pool = NoteState::new();
    pool.note_on("C".to_string());
    pool.note_on("E".to_string());
    pool.note_on("G".to_string());
    pool.reconcile(&scale, OscillatorWaveform::Sine, 0, 44_100);
    assert_eq!(pool.oscillators().len(), 3);
    pool.render(0, 100, &t, &mut trem);
    assert_eq!(trem.get_position(), (100, 0));
    let mut empty = NoteState::new();
    empty.render(100, 50, &t, &mut trem);
    assert_eq!(trem.get_position(), (150, 0));
}
