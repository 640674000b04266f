//! Direct checks of the per-window spectral edits of each effect.
use scamble::click::ClickSimulator2000;
use scamble::fantasy::{Fantasy, ECHO_EPS_Q, EDGE_BINS};
use scamble::fixed::SCALE;
use scamble::noise_reduction::{NoiseReduction, ADJ_Q, HBINS};
use scamble::vocoder::Vocoder;
use scamble::dsp::ProcessResult;

fn flat_bins(re: i64, im: i64) -> Vec<(i64, i64)> {
    vec![(re, im); HBINS]
}

#[test]
fn nr_edit_is_normalization_when_disabled() {
    let mut nr = NoiseReduction::create();
    nr.set_persist_enable(false);
    nr.set_var_enable(false);
    // left is the quieter channel everywhere
    let left = flat_bins(6400, -128);
    let right = flat_bins(20000, 20000);
    let out = nr.spectral_edit(&left, &right, SCALE);
    assert_eq!(out.len(), HBINS);
    // ADJ_Q is 64 in whole units, so the edit divides by 64 exactly
    assert_eq!(out[1], (100, -2));
    assert_eq!(out[HBINS / 2], (100, -2));
    // Hermitian edge bins are pinned to real values
    assert_eq!(out[0], (100, 0));
    assert_eq!(out[HBINS - 1], (100, 0));
    // persistence was disabled: the store is flushed to zero
    assert!(nr.persistent.iter().all(|p| *p == 0));
}

#[test]
fn nr_persistent_subtraction_silences_steady_tone() {
    let mut nr = NoiseReduction::create();
    nr.set_var_enable(false);
    nr.set_persist_enable(true);
    // fastest possible tracking: the estimate reaches the magnitude in one
    // window
    nr.set_persist_lerp(SCALE);
    let left = flat_bins(6400, 0);
    let right = flat_bins(20000, 20000);
    let out = nr.spectral_edit(&left, &right, SCALE);
    // the estimate converged and the subtraction removed the whole tone
    assert_eq!(out[100], (0, 0));
    assert_eq!(nr.persistent[100], 6400);
    // the tone stays silenced on the next identical window
    let out2 = nr.spectral_edit(&left, &right, SCALE);
    assert_eq!(out2[100], (0, 0));
}

#[test]
fn nr_variance_of_uniform_spectrum_is_zero() {
    let nr = NoiseReduction::create();
    let left = flat_bins(5000, 0);
    let right = flat_bins(5000, 0);
    assert_eq!(nr.spectral_variance(&left, &right), 0);
}

#[test]
fn nr_gate_fades_and_remembers() {
    let mut nr = NoiseReduction::create();
    let mut time = vec![800i64; 4096];
    // below the threshold for the first time: a ramp that fades into the
    // gate, untouched at the window's start and an eighth at its end
    nr.apply_gate(&mut time, true);
    assert!(nr.was_gated);
    assert_eq!(time[0], 800);
    assert_eq!(time[4095], 800 * 4096 / (4096 + 7 * 4095));
    // still below: a flat eighth
    let mut time2 = vec![800i64; 4096];
    nr.apply_gate(&mut time2, true);
    assert!(time2.iter().all(|x| *x == 100));
    // back above the threshold: one release ramp fading back in, and the
    // memory clears so later loud windows pass untouched
    let mut time3 = vec![800i64; 4096];
    nr.apply_gate(&mut time3, false);
    assert!(!nr.was_gated);
    assert_eq!(time3[0], 800 / 8);
    assert_eq!(time3[4095], 800 * 4096 / (4096 + 7));
    let mut time4 = vec![800i64; 4096];
    nr.apply_gate(&mut time4, false);
    assert!(time4.iter().all(|x| *x == 800));
    // a fresh engagement after release uses the engage ramp again
    let mut time5 = vec![800i64; 4096];
    nr.apply_gate(&mut time5, true);
    assert!(nr.was_gated);
    assert_eq!(time5[0], 800);
}

#[test]
fn vocoder_flat_carrier_is_identity() {
    let voc = Vocoder::create();
    let mut sig = flat_bins(0, 0);
    for (i, bin) in sig.iter_mut().enumerate() {
        *bin = ((i as i64 % 97) * 3 - 50, -(i as i64 % 31));
    }
    let car = flat_bins(7000, 0);
    let out = voc.spectral_edit(&sig, &car);
    for i in 1..HBINS - 1 {
        assert_eq!(out[i], sig[i], "bin {}", i);
    }
    // Hermitian edges keep only the real part
    assert_eq!(out[0], (sig[0].0, 0));
    assert_eq!(out[HBINS - 1], (sig[HBINS - 1].0, 0));
}

#[test]
fn vocoder_shifted_bins_out_of_range_are_zeroed() {
    let mut voc = Vocoder::create();
    voc.set_signal_offset(80);
    let sig = flat_bins(1000, 1000);
    let car = flat_bins(7000, 0);
    let out = voc.spectral_edit(&sig, &car);
    // bins whose shifted index runs past the spectrum are silenced
    assert_eq!(out[HBINS - 2], (0, 0));
    // in-range bins are not
    assert_ne!(out[100], (0, 0));
}

#[test]
fn vocoder_silent_carrier_silences_output() {
    let voc = Vocoder::create();
    let sig = flat_bins(1000, -1000);
    let car = flat_bins(0, 0);
    let out = voc.spectral_edit(&sig, &car);
    assert!(out.iter().all(|b| *b == (0, 0)));
}

#[test]
fn fantasy_no_detune_no_echo_is_identity() {
    let mut fx = Fantasy::create();
    fx.set_detune_window(0);
    fx.set_echo_support(0);
    let mut spec = flat_bins(0, 0);
    for (i, bin) in spec.iter_mut().enumerate() {
        *bin = ((i as i64 % 53) * 40, (i as i64 % 11) * -7);
    }
    let out = fx.spectral_edit(&spec);
    assert_eq!(out, spec);
}

#[test]
fn fantasy_zero_support_never_accumulates_echo() {
    let mut fx = Fantasy::create();
    fx.set_echo_support(0);
    let spec = flat_bins(30000, -12345);
    for _ in 0..5 {
        let _ = fx.spectral_edit(&spec);
    }
    assert!(fx.persistent.iter().all(|p| *p == 0));
}

#[test]
fn fantasy_echo_rings_then_decays_below_epsilon() {
    let mut fx = Fantasy::create();
    fx.set_echo_support(SCALE);
    fx.set_echo_decay(SCALE / 2);
    // one sharp window charges the echo store
    let loud = flat_bins(50000, 0);
    let _ = fx.spectral_edit(&loud);
    let charged = fx.persistent[EDGE_BINS + 5];
    assert!(charged > ECHO_EPS_Q);
    // silence decays it strictly until it is inaudible
    let quiet = flat_bins(0, 0);
    let mut windows = 0usize;
    while fx.persistent.iter().any(|p| *p > ECHO_EPS_Q) {
        let _ = fx.spectral_edit(&quiet);
        windows += 1;
        assert!(windows <= charged as usize + 1, "echo failed to decay");
    }
    // once quiet and a window of silence has elapsed, the unit may sleep
    let r = fx.should_process(true, 4096);
    assert_eq!(r, ProcessResult::SkipSilent);
}

#[test]
fn fantasy_keeps_running_while_echo_audible() {
    let mut fx = Fantasy::create();
    fx.set_echo_support(SCALE);
    let loud = flat_bins(50000, 0);
    let _ = fx.spectral_edit(&loud);
    let r = fx.should_process(true, 4096);
    assert_eq!(r, ProcessResult::Continue);
}

#[test]
fn click_edit_scales_and_normalizes() {
    let cs = ClickSimulator2000::create();
    let spec = flat_bins(6400, 640);
    // a unit gain leaves only the 1/64 normalization
    let out = cs.spectral_edit(&spec, SCALE);
    assert_eq!(out[7], (100, 10));
    assert_eq!(out[0], (100, 0));
    assert_eq!(out[HBINS - 1], (100, 0));
    // a double gain doubles the result
    let out2 = cs.spectral_edit(&spec, 2 * SCALE);
    assert_eq!(out2[7], (200, 20));
}

#[test]
fn click_jittered_block_reads_shifted_tail() {
    let cs = ClickSimulator2000::create();
    let inverted: Vec<i64> = (0..4096).collect();
    let out = cs.emit_jittered(&inverted, 8, 3);
    assert_eq!(out, (4085..4093).collect::<Vec<i64>>());
    let gain = cs.draw_gain();
    assert!((45875..85197).contains(&gain));
    assert!(cs.draw_jitter() < 24);
}
