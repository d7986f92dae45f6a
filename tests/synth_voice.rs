use visiosynth::envelope::AmplitudeEnvelope;
use visiosynth::oscillator::Oscillator;
use visiosynth::tremolo::TremoloEffect;
use visiosynth::waveform::{OscillatorWaveform, WaveformGenerator, Wavetables, WAVETABLE_SIZE};
use visiosynth::UNITY;

fn sine_table() -> Vec<i32> {
    (0..WAVETABLE_SIZE)
        .map(|i| {
            let x = (i as f64 * 2.0 * std::f64::consts::PI / WAVETABLE_SIZE as f64).sin();
            (x * UNITY as f64).round() as i32
        })
        .collect()
}

fn tables() -> Wavetables {
    Wavetables::new(sine_table()).unwrap()
}

fn quiet_tremolo(tables: &Wavetables) -> TremoloEffect {
    TremoloEffect::builder().build(44100, tables)
}

#[test]
fn wavetables_reject_bad_sine() {
    assert!(Wavetables::new(vec![0; 10]).is_none());
    let mut t = sine_table();
    t[3] = UNITY + 1;
    assert!(Wavetables::new(t).is_none());
    let mut t = sine_table();
    t[700] = -UNITY - 1;
    assert!(Wavetables::new(t).is_none());
}

#[test]
fn closed_form_tables() {
    let t = tables();
    let square = t.get(OscillatorWaveform::Square);
    assert_eq!(square[0], UNITY);
    assert_eq!(square[511], UNITY);
    assert_eq!(square[512], -UNITY);
    let saw = t.get(OscillatorWaveform::Sawtooth);
    assert_eq!(saw[0], -UNITY);
    assert_eq!(saw[512], 0);
    assert_eq!(saw[1023], 64 * 1023 - UNITY);
    let tri = t.get(OscillatorWaveform::Triangle);
    assert_eq!(tri[0], -UNITY);
    assert_eq!(tri[256], 0);
    assert_eq!(tri[512], UNITY);
    assert_eq!(tri[768], 0);
    assert!(t.get(OscillatorWaveform::Silence).iter().all(|&x| x == 0));
}

#[test]
fn generator_samples_stay_in_range() {
    let t = tables();
    let waves = [
        OscillatorWaveform::Sine,
        OscillatorWaveform::Square,
        OscillatorWaveform::Sawtooth,
        OscillatorWaveform::Triangle,
        OscillatorWaveform::Silence,
    ];
    for &w in waves.iter() {
        for &(f, r) in [(440_000u64, 44_100u32), (1, 8_000), (96_000_000, 48_000), (u64::MAX, 1), (0, 44_100)].iter() {
            let mut g = WaveformGenerator::new(w, f, r);
            for _ in 0..5000 {
                let s = g.get_sample(&t);
                assert!(-UNITY <= s && s <= UNITY);
            }
        }
    }
}

#[test]
fn generator_interpolates_between_entries() {
    let t = tables();
    // A quarter of the table per sample: the samples land on entries 0, 256, 512, 768.
    let mut g = WaveformGenerator::new(OscillatorWaveform::Triangle, 11_025_000, 44_100);
    assert_eq!(g.get_sample(&t), -UNITY);
    assert_eq!(g.get_sample(&t), 0);
    assert_eq!(g.get_sample(&t), UNITY);
    assert_eq!(g.get_sample(&t), 0);
    assert_eq!(g.get_sample(&t), -UNITY);
    // Half a table step per sample: every other sample falls halfway between entries.
    let mut g = WaveformGenerator::new(OscillatorWaveform::Sawtooth, 1_000, 2_048);
    assert_eq!(g.get_sample(&t), -UNITY);
    assert_eq!(g.get_sample(&t), -UNITY + 32);
    assert_eq!(g.get_sample(&t), -UNITY + 64);
}

#[test]
fn generator_frequency_keeps_phase() {
    let t = tables();
    let mut a = WaveformGenerator::new(OscillatorWaveform::Sine, 440_000, 44_100);
    let mut b = WaveformGenerator::new(OscillatorWaveform::Sine, 440_000, 44_100);
    for _ in 0..100 {
        a.get_sample(&t);
        b.get_sample(&t);
    }
    a.set_frequency(880_000);
    assert_eq!(a.get_frequency(), 880_000);
    assert_eq!(a.get_waveform(), OscillatorWaveform::Sine);
    // Same phase: the next sample is the same for both.
    assert_eq!(a.get_sample(&t), b.get_sample(&t));
}

#[test]
fn envelope_stage_boundaries() {
    let e = AmplitudeEnvelope { attack_time: 100, decay_time: 100, sustain_level: 16384, release_time: 200 };
    assert_eq!(e.amplitude_at_time(0), 0);
    assert_eq!(e.amplitude_at_time(50), UNITY / 2);
    assert_eq!(e.amplitude_at_time(100), UNITY);
    assert_eq!(e.amplitude_at_time(150), 24576);
    assert_eq!(e.amplitude_at_time(200), 16384);
    assert_eq!(e.amplitude_at_time(300), 8192);
    assert_eq!(e.amplitude_at_time(400), 0);
    assert_eq!(e.amplitude_at_time(1_000_000), 0);
}

#[test]
fn envelope_monotonic_within_stages() {
    let e = AmplitudeEnvelope { attack_time: 441, decay_time: 2205, sustain_level: 22938, release_time: 4410 };
    let a = e.attack_time as u64;
    let d = e.decay_time as u64;
    let r = e.release_time as u64;
    for t in 1..a {
        assert!(e.amplitude_at_time(t) >= e.amplitude_at_time(t - 1));
    }
    for t in a + 1..a + d {
        assert!(e.amplitude_at_time(t) <= e.amplitude_at_time(t - 1));
    }
    for t in a + d + 1..a + d + r {
        assert!(e.amplitude_at_time(t) <= e.amplitude_at_time(t - 1));
    }
}

#[test]
fn envelope_without_attack_starts_full() {
    let e = AmplitudeEnvelope { attack_time: 0, decay_time: 10, sustain_level: 0, release_time: 0 };
    assert_eq!(e.amplitude_at_time(0), UNITY);
    assert_eq!(e.amplitude_at_time(5), UNITY / 2);
    assert_eq!(e.amplitude_at_time(10), 0);
}

#[test]
fn oscillator_builder_defaults() {
    let b = Oscillator::builder();
    assert_eq!(b.frequency, 440_000);
    assert_eq!(b.sample_rate, 44_100);
    assert_eq!(b.waveform, OscillatorWaveform::Sine);
    assert_eq!(b.note, "A4");
    let o = b.frequency(220_000).waveform(OscillatorWaveform::Square).attack_time(500).release_time(500).build();
    assert_eq!(o.get_frequency(), 220_000);
    assert_eq!(o.get_waveform(), OscillatorWaveform::Square);
    assert_eq!(o.get_note(), "A4");
}

#[test]
fn oscillator_block_follows_envelope() {
    let t = tables();
    let mut trem = quiet_tremolo(&t);
    // Square wave, 10 ms attack at 1 kHz sampling: ten samples ramp up.
    let mut o = Oscillator::new(1_000, 1_000, OscillatorWaveform::Square, "C".to_string(), 10, 0, 1000, 1000);
    o.start_note(0);
    let block = o.generate_wave(0, 12, &t, &mut trem);
    assert_eq!(block.len(), 12);
    for i in 0..10 {
        assert_eq!(block[i], UNITY * i as i32 / 10);
    }
    assert_eq!(block[10], UNITY);
}

#[test]
fn oscillator_release_clears_start_time() {
    let t = tables();
    let mut trem = quiet_tremolo(&t);
    let mut o = Oscillator::new(440_000, 1_000, OscillatorWaveform::Sine, "A".to_string(), 10, 10, 500, 10);
    o.start_note(100);
    o.release_note(115);
    // The envelope starts from silence at the armed start time.
    let block = o.generate_wave(100, 5, &t, &mut trem);
    assert_eq!(block[0], 0);
    o.release_note(130);
    o.set_waveform(OscillatorWaveform::Triangle);
    assert_eq!(o.get_waveform(), OscillatorWaveform::Triangle);
    assert_eq!(o.get_frequency(), 440_000);
    o.set_frequency(220_000);
    assert_eq!(o.get_frequency(), 220_000);
}

#[test]
fn sine_block_energy_near_440() {
    let t = tables();
    let mut trem = quiet_tremolo(&t);
    let mut o = Oscillator::new(440_000, 44_100, OscillatorWaveform::Sine, "A".to_string(), 0, 0, 1000, 100_000);
    o.start_note(0);
    let block = o.generate_wave(0, 512, &t, &mut trem);
    let energy = |freq: f64| {
        let (mut re, mut im) = (0.0f64, 0.0f64);
        for (i, &s) in block.iter().enumerate() {
            let w = 2.0 * std::f64::consts::PI * freq * i as f64 / 44_100.0;
            re += s as f64 * w.cos();
            im += s as f64 * w.sin();
        }
        re * re + im * im
    };
    let at_440 = energy(440.0);
    for &f in [110.0, 220.0, 330.0, 660.0, 880.0, 1760.0].iter() {
        assert!(at_440 > 10.0 * energy(f), "energy at {} too close to 440 Hz", f);
    }
}
