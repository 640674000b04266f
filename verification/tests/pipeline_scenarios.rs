//! End-to-end scenarios: the verified stages composed with the real
//! transform, as the host adapter runs them.
use realfft::RealFftPlanner;
use realfft::num_complex::Complex;
use scamble::fixed::SCALE;
use scamble::noise_reduction::{NoiseReduction, HBINS};
use scamble::signal::SignalConst;

const WINDOW: usize = 4096;

fn to_fixed(x: f32) -> i64 {
    (x as f64 * SCALE as f64).round() as i64
}

fn to_float(x: i64) -> f32 {
    (x as f64 / SCALE as f64) as f32
}

/// One processing call of the noise-reduction unit: stream the block in,
/// and once a window of history exists, transform, edit, invert, gate,
/// normalize and overlap-add one output block.
fn nr_process(nr: &mut NoiseReduction, interleaved: &[f32]) -> Vec<f32> {
    let fixed: Vec<i64> = interleaved.iter().map(|x| to_fixed(*x)).collect();
    let input = SignalConst::new(&fixed, 2);
    nr.feed(&input);
    let out_len = interleaved.len() / 2;
    if !nr.is_ready() {
        return vec![0.0; out_len];
    }
    let (lw, rw) = nr.windows();

    let mut planner = RealFftPlanner::<f32>::new();
    let fwd = planner.plan_fft_forward(WINDOW);
    let inv = planner.plan_fft_inverse(WINDOW);

    let mut lt: Vec<f32> = lw.iter().map(|x| to_float(*x)).collect();
    let mut rt: Vec<f32> = rw.iter().map(|x| to_float(*x)).collect();
    let mut ls = fwd.make_output_vec();
    let mut rs = fwd.make_output_vec();
    fwd.process(&mut lt, &mut ls).unwrap();
    fwd.process(&mut rt, &mut rs).unwrap();

    let lq: Vec<(i64, i64)> = ls.iter().map(|c| (to_fixed(c.re), to_fixed(c.im))).collect();
    let rq: Vec<(i64, i64)> = rs.iter().map(|c| (to_fixed(c.re), to_fixed(c.im))).collect();

    // the variance attenuation factor is a host-side float computation;
    // with variance gating disabled it is never applied
    let edited = nr.spectral_edit(&lq, &rq, SCALE);
    assert_eq!(edited.len(), HBINS);

    let mut spec: Vec<Complex<f32>> =
        edited.iter().map(|b| Complex::new(to_float(b.0), to_float(b.1))).collect();
    let mut time = inv.make_output_vec();
    inv.process(&mut spec, &mut time).unwrap();

    let mut tq: Vec<i64> = time.iter().map(|x| to_fixed(*x)).collect();
    // the noise-gate decision (block level in dB against the threshold) is a
    // host-side float computation; these scenarios run with it disabled
    nr.apply_gate(&mut tq, false);
    nr.normalize_window(&mut tq);
    let out = nr.overlap.emit(&tq, out_len);
    out.iter().map(|x| to_float(*x)).collect()
}

fn energy(block: &[f32]) -> f64 {
    block.iter().map(|x| (*x as f64) * (*x as f64)).sum()
}

/// One processing call of the fantasy unit, mirroring its discipline: the
/// normalization and the overlap-add crossfade run on every call, the
/// transform only once a full window exists.
fn fantasy_process(
    fx: &mut scamble::fantasy::Fantasy,
    copy: &mut Vec<i64>,
    interleaved: &[f32],
) -> Vec<f32> {
    let fixed: Vec<i64> = interleaved.iter().map(|x| to_fixed(*x)).collect();
    let input = SignalConst::new(&fixed, 2);
    fx.feed(&input);
    let out_len = interleaved.len() / 2;
    if fx.is_ready() {
        let w = fx.window();
        let mut planner = RealFftPlanner::<f32>::new();
        let fwd = planner.plan_fft_forward(WINDOW);
        let inv = planner.plan_fft_inverse(WINDOW);
        let mut t: Vec<f32> = w.iter().map(|x| to_float(*x)).collect();
        let mut s = fwd.make_output_vec();
        fwd.process(&mut t, &mut s).unwrap();
        let sq: Vec<(i64, i64)> = s.iter().map(|c| (to_fixed(c.re), to_fixed(c.im))).collect();
        let edited = fx.spectral_edit(&sq);
        let mut spec: Vec<Complex<f32>> =
            edited.iter().map(|b| Complex::new(to_float(b.0), to_float(b.1))).collect();
        // the transform pair requires real-valued edge bins
        spec[0].im = 0.0;
        spec[HBINS - 1].im = 0.0;
        let mut time = inv.make_output_vec();
        inv.process(&mut spec, &mut time).unwrap();
        *copy = time.iter().map(|x| to_fixed(*x)).collect();
    }
    fx.normalize_window(copy);
    let out = fx.overlap.emit(copy, out_len);
    out.iter().map(|x| to_float(*x)).collect()
}

/// One processing call of the vocoder, mirroring its discipline.
fn vocoder_process(
    voc: &mut scamble::vocoder::Vocoder,
    interleaved: &[f32],
    sidechain: &[f32],
) -> Vec<f32> {
    let fixed: Vec<i64> = interleaved.iter().map(|x| to_fixed(*x)).collect();
    let input = SignalConst::new(&fixed, 2);
    voc.feed_signal(&input);
    let out_len = interleaved.len() / 2;
    if !voc.sidechain_enabled {
        voc.zero_carrier();
        return vec![0.0; out_len];
    }
    let carrier_fixed: Vec<i64> = sidechain.iter().map(|x| to_fixed(*x)).collect();
    let carrier = SignalConst::new(&carrier_fixed, 2);
    voc.feed_carrier(&carrier);
    if !voc.is_ready() {
        return vec![0.0; out_len];
    }
    let (sw, cw) = voc.windows();
    let mut planner = RealFftPlanner::<f32>::new();
    let fwd = planner.plan_fft_forward(WINDOW);
    let inv = planner.plan_fft_inverse(WINDOW);
    let mut st: Vec<f32> = sw.iter().map(|x| to_float(*x)).collect();
    let mut ct: Vec<f32> = cw.iter().map(|x| to_float(*x)).collect();
    let mut ss = fwd.make_output_vec();
    let mut cs = fwd.make_output_vec();
    fwd.process(&mut st, &mut ss).unwrap();
    fwd.process(&mut ct, &mut cs).unwrap();
    let sq: Vec<(i64, i64)> = ss.iter().map(|c| (to_fixed(c.re), to_fixed(c.im))).collect();
    let cq: Vec<(i64, i64)> = cs.iter().map(|c| (to_fixed(c.re), to_fixed(c.im))).collect();
    let edited = voc.spectral_edit(&sq, &cq);
    let mut spec: Vec<Complex<f32>> =
        edited.iter().map(|b| Complex::new(to_float(b.0), to_float(b.1))).collect();
    spec[0].im = 0.0;
    spec[HBINS - 1].im = 0.0;
    let mut time = inv.make_output_vec();
    inv.process(&mut spec, &mut time).unwrap();
    let mut tq: Vec<i64> = time.iter().map(|x| to_fixed(*x)).collect();
    voc.normalize_window(&mut tq);
    let out = voc.overlap.emit(&tq, out_len);
    out.iter().map(|x| to_float(*x)).collect()
}

#[test]
fn vocoder_without_sidechain_is_silent() {
    let mut voc = scamble::vocoder::Vocoder::create();
    let tone = vec![0.25f32; 2048];
    for _ in 0..6 {
        let out = vocoder_process(&mut voc, &tone, &[]);
        assert!(out.iter().all(|x| *x == 0.0));
    }
}

#[test]
fn vocoder_flat_carrier_passes_signal_through() {
    let mut voc = scamble::vocoder::Vocoder::create();
    voc.set_sidechain(true);

    // a periodic tone so consecutive overlapping windows agree
    let block_frames = 1024usize;
    let mut tone = vec![0.0f32; block_frames * 2];
    for i in 0..block_frames {
        let v = 0.4 * (2.0 * std::f32::consts::PI * (i as f32) * 16.0 / block_frames as f32).sin();
        tone[2 * i] = v;
        tone[2 * i + 1] = v;
    }
    let input_energy = energy(&tone) / 2.0;

    // an impulse carrier: its magnitude spectrum is flat, so after peak
    // normalization every bin's factor is one
    let silent = vec![0.0f32; block_frames * 2];
    let mut impulse = silent.clone();
    impulse[0] = 1.0;
    impulse[1] = 1.0;

    for _ in 0..3 {
        let _ = vocoder_process(&mut voc, &tone, &silent);
    }
    let _ = vocoder_process(&mut voc, &tone, &impulse);
    let _ = vocoder_process(&mut voc, &tone, &silent);
    let out = vocoder_process(&mut voc, &tone, &silent);
    let ratio = energy(&out) / input_energy;
    assert!((0.9..1.1).contains(&ratio), "energy ratio {} out of tolerance", ratio);
}

#[test]
fn fantasy_zero_input_stays_exactly_zero() {
    let mut fx = scamble::fantasy::Fantasy::create();
    let mut copy = vec![0i64; WINDOW];
    let silent = vec![0.0f32; 2048];
    for _ in 0..10 {
        let out = fantasy_process(&mut fx, &mut copy, &silent);
        assert!(out.iter().all(|x| *x == 0.0));
    }
    assert!(fx.persistent.iter().all(|p| *p == 0));
}

#[test]
fn zero_input_stays_exactly_zero() {
    let mut nr = NoiseReduction::create();
    nr.set_var_enable(false);
    nr.set_noise_gate_enable(false);
    let silent = vec![0.0f32; 2048];
    for _ in 0..10 {
        let out = nr_process(&mut nr, &silent);
        assert!(out.iter().all(|x| *x == 0.0));
    }
}

#[test]
fn correlated_noise_is_progressively_subtracted() {
    let mut nr = NoiseReduction::create();
    nr.set_var_enable(false);
    nr.set_noise_gate_enable(false);
    // fast persistence so convergence is visible within a few windows
    nr.set_persist_lerp(SCALE / 2);

    // a deterministic noise block, identical on both channels; repeating it
    // makes every window hold the same spectral content
    let block_frames = 1024usize;
    let mut block = vec![0.0f32; block_frames * 2];
    let mut state: u32 = 0x1234_5678;
    for i in 0..block_frames {
        state = state.wrapping_mul(1664525).wrapping_add(1013904223);
        let v = ((state >> 8) as f32 / (1u32 << 24) as f32 - 0.5) * 0.4;
        block[2 * i] = v;
        block[2 * i + 1] = v;
    }
    let input_energy = energy(&block) / 2.0;

    let mut energies = Vec::new();
    for _ in 0..12 {
        let out = nr_process(&mut nr, &block);
        energies.push(energy(&out));
    }
    // the first processed windows still carry audible residue
    assert!(energies[4] > 0.0);
    // as windows repeat with unchanged content, the persistent estimate
    // converges onto each bin's magnitude and the output dies away
    assert!(energies[11] < energies[4] * 0.05, "late {} early {}", energies[11], energies[4]);
    assert!(energies[11] < input_energy * 0.01);
}

#[test]
fn sine_tone_passes_through_with_processing_inactive() {
    let mut nr = NoiseReduction::create();
    nr.set_var_enable(false);
    nr.set_persist_enable(false);
    nr.set_noise_gate_enable(false);

    // a window-sized silent warm-up
    let silent = vec![0.0f32; 2048];
    for _ in 0..4 {
        let _ = nr_process(&mut nr, &silent);
    }
    // one block of a pure tone on both channels
    let block_frames = 1024usize;
    let mut tone = vec![0.0f32; block_frames * 2];
    for i in 0..block_frames {
        let v = 0.5 * (2.0 * std::f32::consts::PI * (i as f32) * 32.0 / block_frames as f32).sin();
        tone[2 * i] = v;
        tone[2 * i + 1] = v;
    }
    let input_energy = energy(&tone) / 2.0;

    let _ = nr_process(&mut nr, &tone);
    // the tone's stretch of the window emerges one hop later, crossfaded
    // against itself
    let out = nr_process(&mut nr, &silent);
    let output_energy = energy(&out);
    let ratio = output_energy / input_energy;
    assert!(
        (0.9..1.1).contains(&ratio),
        "energy ratio {} out of tolerance",
        ratio
    );
}
