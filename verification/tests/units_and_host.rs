//! Unit metadata, silence tracking, the host result adapter, and the small
//! per-sample effects.
use scamble::dsp::{track_silence, DspType, ProcessResult};
use scamble::dynamics::{fsqrt_signed, LocalDynamics};
use scamble::exact::ExactOut;
use scamble::fixed::SCALE;
use scamble::host::{BoolParamLens, FloatParamLens, FmodError, IntParamLens, FMOD_RESULT};
use scamble::noise_reduction::NoiseReduction;
use scamble::signal::{SignalConst, SignalMut};
use scamble::vocoder::Vocoder;
use scamble::windy::{DySynth, WindySynth};

#[test]
fn silence_tracking_accumulates_and_resets() {
    let (s, full) = track_silence(0, true, 1024, 4096);
    assert_eq!((s, full), (1024, false));
    let (s, full) = track_silence(s, true, 3072, 4096);
    assert_eq!((s, full), (4096, true));
    let (s, full) = track_silence(s, false, 512, 4096);
    assert_eq!((s, full), (0, false));
}

#[test]
fn should_process_skips_after_a_silent_window() {
    let mut nr = NoiseReduction::create();
    assert_eq!(nr.should_process(true, 2048), ProcessResult::Continue);
    assert_eq!(nr.should_process(true, 2048), ProcessResult::SkipSilent);
    assert_eq!(nr.should_process(false, 2048), ProcessResult::Continue);
    let mut voc = Vocoder::create();
    assert_eq!(voc.should_process(true, 4096), ProcessResult::SkipSilent);
    assert_eq!(voc.should_process(false, 16), ProcessResult::Continue);
}

#[test]
fn unit_metadata() {
    assert_eq!(NoiseReduction::name(), "Noise Reduction");
    assert_eq!(NoiseReduction::ty(), DspType::Effect);
    assert_eq!(NoiseReduction::parameters().len(), 6);
    assert_eq!(Vocoder::name(), "Vocoder");
    assert_eq!(Vocoder::parameters().len(), 3);
    assert_eq!(scamble::fantasy::Fantasy::parameters().len(), 5);
    assert_eq!(scamble::click::ClickSimulator2000::name(), "Click Sim");
    assert_eq!(WindySynth::name(), "Scamble");
    assert_eq!(WindySynth::ty(), DspType::Generator);
    assert_eq!(LocalDynamics::name(), "Local Dynamics");
    assert_eq!(ExactOut::name(), "Exact");
}

#[test]
fn ok_then_builds_success_lazily() {
    let r = FMOD_RESULT::FMOD_OK.ok_then(|| 42u32);
    assert_eq!(r, Ok(42));
    let e = FMOD_RESULT::FMOD_ERR_PLUGIN.ok_then(|| 42u32);
    assert_eq!(e, Err(FmodError(FMOD_RESULT::FMOD_ERR_PLUGIN)));
}

#[test]
fn parameter_lenses_remember_their_index() {
    assert_eq!(FloatParamLens::new(3).idx, 3);
    assert_eq!(BoolParamLens::new(0).idx, 0);
    assert_eq!(IntParamLens::new(7).idx, 7);
}

#[test]
fn dynamics_takes_signed_square_roots() {
    assert_eq!(fsqrt_signed(SCALE), SCALE);
    assert_eq!(fsqrt_signed(4 * SCALE), 2 * SCALE);
    assert_eq!(fsqrt_signed(-4 * SCALE), -2 * SCALE);
    assert_eq!(fsqrt_signed(SCALE / 4), SCALE / 2);
    assert_eq!(fsqrt_signed(0), 0);
    let mut fx = LocalDynamics::create();
    let data = vec![4 * SCALE, -SCALE, 0, SCALE / 4];
    let input = SignalConst::new(&data, 2);
    let mut out = SignalMut::new(vec![0i64; 4], 2);
    fx.read(&input, &mut out);
    assert_eq!(out.into_samples(), vec![2 * SCALE, -SCALE, 0, SCALE / 2]);
}

#[test]
fn exact_copies_sidechain_or_leaves_output() {
    let mut fx = ExactOut::create();
    assert!(!fx.sidechain_enabled);
    let side = vec![5i64, -6, 7, -8];
    let sc = SignalConst::new(&side, 2);
    let mut out = SignalMut::new(vec![1i64; 4], 2);
    fx.read(Some(&sc), &mut out);
    assert_eq!(out.into_samples(), side);
    let mut out2 = SignalMut::new(vec![1i64; 4], 2);
    fx.read(None, &mut out2);
    assert_eq!(out2.into_samples(), vec![1i64; 4]);
}

#[test]
fn windy_output_stays_within_full_scale() {
    let mut synth = WindySynth::create();
    let mut out = SignalMut::new(vec![0i64; 512], 2);
    synth.read(&mut out);
    let data = out.into_samples();
    assert_eq!(data.len(), 512);
    assert!(data.iter().all(|x| -SCALE <= *x && *x <= SCALE));
    // both channels carry the same mono walk
    for i in 0..256 {
        assert_eq!(data[2 * i], data[2 * i + 1]);
    }
    assert!(-SCALE <= synth.tail && synth.tail <= SCALE);
}

#[test]
fn dysynth_output_stays_within_full_scale() {
    let mut synth = DySynth::create();
    let mut out = SignalMut::new(vec![0i64; 128], 2);
    synth.read(&mut out);
    let data = out.into_samples();
    assert!(data.iter().all(|x| -SCALE <= *x && *x <= SCALE));
    for i in 0..64 {
        assert_eq!(data[2 * i], data[2 * i + 1]);
    }
    assert_eq!(DySynth::ty(), DspType::Generator);
}

#[test]
fn reset_refills_or_empties_history() {
    // the vocoder and fantasy reset to a full window of zeros, so they
    // process immediately afterwards
    let mut voc = Vocoder::create();
    assert!(!voc.is_ready());
    voc.reset();
    assert!(voc.is_ready());
    let mut fx = scamble::fantasy::Fantasy::create();
    fx.reset();
    assert!(fx.is_ready());
    // the noise reduction resets to an empty history and must re-buffer
    let mut nr = NoiseReduction::create();
    nr.reset();
    assert!(!nr.is_ready());
}

#[test]
fn signal_views_downmix_and_broadcast() {
    let data = vec![10i64, 20, 30, 40];
    let sc = SignalConst::new(&data, 2);
    assert_eq!(sc.length(), 2);
    assert_eq!(sc.read_mono(), vec![15, 35]);
    let (l, r) = sc.read_stereo();
    assert_eq!(l, vec![10, 30]);
    assert_eq!(r, vec![20, 40]);
    let mut sm = SignalMut::new(vec![0i64; 6], 2);
    sm.write_sample(1, 9);
    sm.fill(3);
    sm.write_sample(2, -4);
    assert_eq!(sm.into_samples(), vec![3, 3, 3, 3, -4, -4]);
}
