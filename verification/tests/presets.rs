use alloc_rhythm::pattern::{pattern_delay_ms, pattern_fits, total_delay_ms, Event};
use alloc_rhythm::presets::{
    harder_pattern, simple_pattern, ukrainian_anthem, HARDER_PATTERN_REPETITIONS,
    SIMPLE_PATTERN_REPETITIONS, UKRAINIAN_ANTHEM_REPETITIONS,
};
use alloc_rhythm::sequencer::Sequencer;

#[test]
fn simple_pattern_shape() {
    let p = simple_pattern();
    assert_eq!(p.len(), 8);
    assert_eq!(p[0], Event::new(2, 250));
    assert_eq!(p[4], Event::new(4, 500));
    assert_eq!(p[7], Event::new(1, 250));
    assert!(p.iter().all(|e| e.size_kb > 0));
    assert!(pattern_fits(&p));
}

#[test]
fn simple_pattern_run() {
    let p = simple_pattern();
    let mut s = Sequencer::new();
    s.run(&p, SIMPLE_PATTERN_REPETITIONS);
    // All 8 events allocate; one pass allocates 14 KB.
    assert_eq!(s.retained_count(), 10 * 8);
    assert_eq!(s.retained_bytes(), Some(10 * 14 * 1024));
    assert_eq!(pattern_delay_ms(&p), Some(2250));
    assert_eq!(total_delay_ms(&p, SIMPLE_PATTERN_REPETITIONS), Some(22500));
}

#[test]
fn harder_pattern_shape() {
    let p = harder_pattern();
    assert_eq!(p.len(), 18);
    assert_eq!(p[0], Event::new(2, 250));
    assert_eq!(p[16], Event::new(6, 1000));
    // The phrase ends in a rest.
    assert_eq!(p[17], Event::new(0, 1000));
    assert!(pattern_fits(&p));
}

#[test]
fn harder_pattern_run() {
    let p = harder_pattern();
    let mut s = Sequencer::new();
    s.run(&p, HARDER_PATTERN_REPETITIONS);
    assert_eq!(s.retained_count(), 2 * 17);
    assert_eq!(s.retained_bytes(), Some(2 * 41 * 1024));
    assert_eq!(pattern_delay_ms(&p), Some(6250));
    assert_eq!(total_delay_ms(&p, HARDER_PATTERN_REPETITIONS), Some(12500));
}

#[test]
fn ukrainian_anthem_shape() {
    let p = ukrainian_anthem();
    assert_eq!(p.len(), 16);
    assert_eq!(p[0], Event::new(2, 250));
    // A rest separates the two lines, and a long rest closes the phrase.
    assert_eq!(p[8], Event::new(0, 500));
    assert_eq!(p[15], Event::new(0, 1000));
    assert!(pattern_fits(&p));
}

#[test]
fn ukrainian_anthem_run() {
    let p = ukrainian_anthem();
    let mut s = Sequencer::new();
    s.run(&p, UKRAINIAN_ANTHEM_REPETITIONS);
    // 14 of the 16 events allocate; one pass allocates 45 KB.
    assert_eq!(s.retained_count(), 3 * 14);
    assert_eq!(s.retained_bytes(), Some(3 * 45 * 1024));
    assert_eq!(pattern_delay_ms(&p), Some(7250));
    assert_eq!(total_delay_ms(&p, UKRAINIAN_ANTHEM_REPETITIONS), Some(21750));
}
