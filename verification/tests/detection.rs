use onshape_level_gen::util::get_notes_from_samples;
use onshape_level_gen::{Peak, Samples};

fn constant_peaks(blocks: usize, val: u32) -> Vec<Peak> {
    (0..blocks).map(|_| Peak { freq: 440_000, val }).collect()
}

#[test]
fn quiet_blocks_never_become_notes() {
    // magnitudes at or under the absolute floor of 0.001 are dropped, so
    // the scan is empty and the empty count sits in the band of a short song
    let samples = Samples { rate: 44100, len: 2 * 4096, peaks: constant_peaks(2, 900) };
    let notes = get_notes_from_samples(&samples, 120);
    assert_eq!(notes.len(), 0);
}

#[test]
fn negative_limit_accepts_every_loud_block() {
    // a non-positive limit disables the adaptive threshold; two loud blocks
    // of a short song always exceed its zero density band, so the search
    // exhausts its attempts and keeps the first scan
    let samples = Samples { rate: 44100, len: 2 * 4096, peaks: constant_peaks(2, 2000) };
    let notes = get_notes_from_samples(&samples, -100);
    assert_eq!(notes.len(), 2);
    assert_eq!(notes[0].time, 0);
    assert_eq!(notes[1].time, 9);
    assert_eq!(notes[0].freq, 440_000);
    assert_eq!(notes[0].val, 2000);
}

#[test]
fn threshold_counts_the_blocks_own_magnitude() {
    // first block: baseline (0 + 2000) / 2 = 1000; at a limit of 2.00 the
    // strict comparison 2000 * 100 > 1000 * 200 fails, so nothing is
    // accepted and the empty scan sits in the short song's band
    let samples = Samples { rate: 44100, len: 2 * 4096, peaks: constant_peaks(2, 2000) };
    let notes = get_notes_from_samples(&samples, 200);
    assert_eq!(notes.len(), 0);
}

#[test]
fn retuning_returns_the_attempt_closest_to_the_band() {
    // sixteen constant blocks at 16384 Hz: the band asks for 10 to 14
    // notes, but the smoothed baseline makes each scan yield either a
    // handful (limit above 1.00) or all sixteen (limit 1.00 or less), so
    // the search oscillates, runs out of attempts, and keeps the scan of
    // all sixteen blocks as the closest
    let samples = Samples { rate: 16384, len: 16 * 4096, peaks: constant_peaks(16, 2000) };
    let notes = get_notes_from_samples(&samples, 120);
    assert_eq!(notes.len(), 16);
    for (i, n) in notes.iter().enumerate() {
        assert_eq!(n.time, i as u64 * 25);
    }
}

#[test]
fn note_times_increase_strictly() {
    let samples = Samples { rate: 44100, len: 40 * 4096, peaks: constant_peaks(40, 30_000) };
    let notes = get_notes_from_samples(&samples, 80);
    for pair in notes.windows(2) {
        assert!(pair[0].time < pair[1].time);
    }
}

#[test]
fn synthetic_tone_converges_under_the_attempt_cap() {
    // a ten-second mono take at 44100 Hz holding one 440 Hz tone: every
    // full block carries the same dominant peak. The density band asks for
    // 25 to 35 notes but constant magnitudes yield either a few notes or
    // all 107, so the limit oscillates; the explicit cap of fifty attempts
    // ends the search and the closest attempt (five notes) comes back.
    let samples = Samples { rate: 44100, len: 441_000, peaks: constant_peaks(107, 50_000) };
    let notes = get_notes_from_samples(&samples, 120);
    assert_eq!(notes.len(), 5);
    let times: Vec<u64> = notes.iter().map(|n| n.time).collect();
    assert_eq!(times, vec![0, 9, 18, 27, 37]);
    for pair in notes.windows(2) {
        assert!(pair[0].time < pair[1].time);
    }
}
