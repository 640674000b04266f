//! Granular playback: note-region selection, voice-limit eviction, additive
//! mixing, and note retirement.
use scamble::cassette::CassettePlayer;
use scamble::ring::notes_len;
use scamble::signal::SignalMut;
use scamble::fixed::SCALE;

fn loaded_player(len: usize) -> CassettePlayer {
    let mut cp = CassettePlayer::create();
    let samples: Vec<i64> = (0..len as i64).map(|x| x + 1).collect();
    cp.set_samples(samples);
    cp
}

#[test]
fn region_selection_full_window() {
    // L = 1000, K = 10, p = 0.5 picks [500, 600)
    let mut cp = loaded_player(1000);
    cp.set_num_notes(10);
    let (start, end) = cp.note_at_pos(SCALE / 2);
    assert_eq!(start, 500);
    assert_eq!(end, 600);
    // p = 0 picks the first region
    let (s0, e0) = cp.note_at_pos(0);
    assert_eq!(s0, 0);
    assert_eq!(e0, 100);
    // p = 1 clips to the array's end
    let (s1, e1) = cp.note_at_pos(SCALE);
    assert_eq!(s1, 1000);
    assert_eq!(e1, 1000);
}

#[test]
fn offsets_are_percents_of_the_array() {
    // a 50% start offset on a 1000-sample array begins at sample 500
    let mut cp = loaded_player(1000);
    cp.set_start_offset(50 * SCALE);
    assert_eq!(cp.start_idx(), 500);
    assert_eq!(cp.end_idx(), 1000);
    assert_eq!(cp.content_len(), 500);
    // one percent trims exactly one percent, not the whole array
    cp.set_start_offset(SCALE);
    assert_eq!(cp.start_idx(), 10);
    cp.set_end_offset(90 * SCALE);
    assert_eq!(cp.end_idx(), 900);
}

#[test]
fn trigger_mixes_selected_region() {
    let mut cp = loaded_player(1000);
    cp.set_num_notes(10);
    cp.set_note(SCALE / 2);
    let block = cp.mix_block(4);
    // samples[500..504] are 501..=504 (the array is value = index + 1)
    assert_eq!(block, vec![501, 502, 503, 504]);
    // the next block continues where the note left off
    let block2 = cp.mix_block(4);
    assert_eq!(block2, vec![505, 506, 507, 508]);
}

#[test]
fn voice_limit_drops_oldest_note() {
    let mut cp = loaded_player(1000);
    cp.set_num_notes(10);
    cp.set_voices(1);
    cp.set_note(0);
    let first = cp.mix_block(2);
    assert_eq!(first, vec![1, 2]);
    // a second trigger exceeds the single-voice limit: only the new note
    // remains audible
    cp.set_note(SCALE / 2);
    let second = cp.mix_block(2);
    assert_eq!(second, vec![501, 502]);
    assert_eq!(notes_len(&cp.trailing_notes), 1);
}

#[test]
fn notes_mix_additively() {
    let mut cp = loaded_player(1000);
    cp.set_num_notes(10);
    cp.set_voices(4);
    cp.set_note(0);
    let _ = cp.mix_block(2);
    cp.set_note(SCALE / 2);
    let mixed = cp.mix_block(2);
    // old note sits at position 2, new note starts at 500
    assert_eq!(mixed, vec![3 + 501, 4 + 502]);
}

#[test]
fn note_retires_at_region_end() {
    let mut cp = loaded_player(1000);
    cp.set_num_notes(100);
    // each region spans 10 samples
    cp.set_note(0);
    let b = cp.mix_block(10);
    assert_eq!(b, (1..=10).collect::<Vec<i64>>());
    assert_eq!(notes_len(&cp.trailing_notes), 0);
    // afterwards the queue is empty and output silent
    let quiet = cp.mix_block(4);
    assert_eq!(quiet, vec![0, 0, 0, 0]);
}

#[test]
fn unchanged_note_parameter_does_not_retrigger() {
    let mut cp = loaded_player(1000);
    cp.set_num_notes(100);
    cp.set_note(0);
    let _ = cp.mix_block(10);
    // same parameter value: no new note
    let quiet = cp.mix_block(10);
    assert_eq!(quiet, vec![0; 10]);
}

#[test]
fn async_mode_steps_through_regions() {
    let mut cp = loaded_player(1000);
    cp.set_num_notes(10);
    cp.set_async(true);
    // first trigger plays region 0 regardless of the parameter value
    cp.set_note(SCALE / 2);
    let b0 = cp.mix_block(2);
    assert_eq!(b0, vec![1, 2]);
    // second trigger advances the internal counter to region 1
    cp.set_note(SCALE / 4);
    let b1 = cp.mix_block(2);
    // the counter's fraction 1/10 truncates to 6553 quanta, which lands the
    // region start at sample index 99 (value 100); it mixes on top of the
    // still-running region 0 note at position 2 (values 3, 4)
    assert_eq!(b1, vec![3 + 100, 4 + 101]);
}

#[test]
fn read_broadcasts_mix_to_all_channels() {
    let mut cp = loaded_player(1000);
    cp.set_num_notes(10);
    cp.set_note(0);
    let mut out = SignalMut::new(vec![0i64; 8], 2);
    cp.read(&mut out);
    let data = out.into_samples();
    assert_eq!(data, vec![1, 1, 2, 2, 3, 3, 4, 4]);
}

#[test]
fn reset_clears_queue_and_rearms() {
    let mut cp = loaded_player(1000);
    cp.set_num_notes(10);
    cp.set_note(0);
    let _ = cp.mix_block(2);
    cp.reset();
    assert_eq!(notes_len(&cp.trailing_notes), 0);
    // the sentinel previous value makes the unchanged parameter trigger
    // again
    let b = cp.mix_block(2);
    assert_eq!(b, vec![1, 2]);
}

#[test]
fn metadata_is_stable() {
    assert_eq!(CassettePlayer::name(), "CassettePlayer");
    assert_eq!(CassettePlayer::version(), 1);
    assert_eq!(CassettePlayer::parameters().len(), 8);
}
