use visiosynth::buffer::{AudioBuffer, AudioNode, WaveShaperNode};
use visiosynth::decimate::{downsample_factor, Decimator, DownsampledAudioData, SNAPSHOT_CELLS};
use visiosynth::key_state::KeyStates;
use visiosynth::modulator::Modulator;
use visiosynth::sample::{pan, to_i16, to_u16};
use visiosynth::waveform::{Wavetables, WAVETABLE_SIZE};
use visiosynth::UNITY;

fn sine_table() -> Vec<i32> {
    (0..WAVETABLE_SIZE)
        .map(|i| {
            let x = (i as f64 * 2.0 * std::f64::consts::PI / WAVETABLE_SIZE as f64).sin();
            (x * UNITY as f64).round() as i32
        })
        .collect()
}

fn names(v: &[String]) -> Vec<&str> {
    v.iter().map(|s| s.as_str()).collect()
}

#[test]
fn decimating_a_constant_block_gives_the_constant() {
    let k = downsample_factor(44_100);
    assert_eq!(k, 735);
    for &c in [1234, -77, 0, UNITY, -UNITY].iter() {
        let mut d = Decimator::new(k);
        let mut snap = DownsampledAudioData::new();
        assert!(d.push(&vec![c; k as usize], &mut snap));
        assert_eq!(snap.get(0, 0), c);
        assert!(snap.as_slice()[1..].iter().all(|&x| x == 0));
    }
}

#[test]
fn decimator_waits_for_a_full_chunk() {
    let mut d = Decimator::new(4);
    let mut snap = DownsampledAudioData::new();
    assert!(!d.push(&vec![8, 8], &mut snap));
    assert_eq!(snap.get(0, 0), 0);
    assert!(d.push(&vec![8, 8, 3], &mut snap));
    assert_eq!(snap.get(0, 0), 8);
    assert_eq!(snap.get(0, 1), 3);
    assert_eq!(snap.get(0, 2), 0);
    // Collection starts over after a snapshot.
    assert!(!d.push(&vec![1], &mut snap));
    assert_eq!(snap.get(0, 1), 3);
}

#[test]
fn decimation_rounds_down_and_fills_rows() {
    let mut d = Decimator::new(2);
    let mut snap = DownsampledAudioData::new();
    let samples: Vec<i32> = (0..40).map(|i| if i % 2 == 0 { -3 } else { 0 }).collect();
    assert!(d.push(&samples, &mut snap));
    // Each pair averages -1.5, rounded down to -2; twenty values over two rows.
    for i in 0..20 {
        assert_eq!(snap.get(i / 16, i % 16), -2);
    }
    assert_eq!(snap.get(1, 4), 0);
}

#[test]
fn snapshot_holds_at_most_256_values() {
    let mut d = Decimator::new(1);
    let mut snap = DownsampledAudioData::new();
    let samples: Vec<i32> = (1..=300).collect();
    assert!(d.push(&samples, &mut snap));
    let cells = snap.as_slice();
    assert_eq!(cells.len(), SNAPSHOT_CELLS);
    for i in 0..256 {
        assert_eq!(cells[i], i as i32 + 1);
    }
    assert!(cells[256..].iter().all(|&x| x == 0));
}

#[test]
fn audio_buffer_channels_are_planar() {
    let mut b = AudioBuffer { data: vec![1, 2, 3, 4, 5, 6], num_channels: 2 };
    assert_eq!(b.num_channels(), 2);
    assert_eq!(b.num_frames(), 3);
    assert_eq!(b.channel(0), &[1, 2, 3]);
    assert_eq!(b.channel(1), &[4, 5, 6]);
    b.channel_mut(1)[0] = 40;
    assert_eq!(b.data, vec![1, 2, 3, 40, 5, 6]);
}

#[test]
fn wave_shaper_applies_transfer_function() {
    let input = AudioBuffer { data: vec![1, -2, 3, -4], num_channels: 2 };
    let mut output = AudioBuffer { data: vec![0; 4], num_channels: 2 };
    let mut node = WaveShaperNode { transfer_fn: |x: i32| x.saturating_mul(3) };
    node.process(&input, &mut output);
    assert_eq!(output.data, vec![3, -6, 9, -12]);
    assert_eq!(output.num_channels, 2);
}

#[test]
fn wave_shaper_leaves_data_past_the_frames() {
    let input = AudioBuffer { data: vec![1, -2, 3, -4, 5], num_channels: 2 };
    let mut output = AudioBuffer { data: vec![0, 0, 0, 0, 9], num_channels: 2 };
    let mut node = WaveShaperNode { transfer_fn: |x: i32| x.saturating_mul(3) };
    node.process(&input, &mut output);
    assert_eq!(output.data, vec![3, -6, 9, -12, 9]);
    let mut shorter = AudioBuffer { data: vec![7; 4], num_channels: 2 };
    node.process(&input, &mut shorter);
    assert_eq!(shorter.data, vec![3, -6, 9, -12]);
}

#[test]
fn device_sample_conversions() {
    assert_eq!(to_i16(0), 0);
    assert_eq!(to_i16(UNITY), i16::MAX);
    assert_eq!(to_i16(-UNITY), i16::MIN);
    assert_eq!(to_i16(1234), 1234);
    assert_eq!(to_u16(0), 32768);
    assert_eq!(to_u16(-UNITY), 0);
    assert_eq!(to_u16(UNITY), u16::MAX);
}

#[test]
fn pan_splits_by_formula() {
    // Centre: left keeps the sample, right is sample * (1 - left).
    assert_eq!(pan(UNITY / 2, 0), (UNITY / 2, (UNITY / 2) * (UNITY - UNITY / 2) / UNITY));
    // Hard right silences the left channel.
    assert_eq!(pan(1000, UNITY), (0, 1000));
    assert_eq!(pan(1000, -UNITY / 2), (500, 1000 * (UNITY - 500) / UNITY));
}

#[test]
fn modulator_steps_through_the_sine() {
    let t = Wavetables::new(sine_table()).unwrap();
    let sine = sine_table();
    // A quarter period per sample.
    let mut m = Modulator::new(11_025_000, 44_100);
    assert_eq!(m.sine_wave(&t), UNITY);
    assert_eq!(m.next(0, &t), sine[0]);
    assert_eq!(m.next(0, &t), sine[256]);
    // Modulation -1.0 stops the phase.
    assert_eq!(m.next(-UNITY, &t), sine[512]);
    assert_eq!(m.next(0, &t), sine[512]);
    assert_eq!(m.sine_wave(&t), -UNITY);
}

#[test]
fn key_states_report_changes() {
    let mut k = KeyStates::new(vec!["a".to_string(), "b".to_string()]);
    assert_eq!(names(&k.get_pressed_keys()), vec!["a", "b"]);
    assert!(k.get_released_keys().is_empty());
    k.update_keys(vec!["b".to_string(), "c".to_string()]);
    assert_eq!(names(&k.get_pressed_keys()), vec!["c"]);
    assert_eq!(names(&k.get_released_keys()), vec!["a"]);
    k.update_keys(vec!["b".to_string(), "c".to_string()]);
    assert!(k.get_pressed_keys().is_empty());
    assert!(k.get_released_keys().is_empty());
}
