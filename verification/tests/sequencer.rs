use alloc_rhythm::pattern::{pattern_delay_ms, pattern_fits, total_delay_ms, Event};
use alloc_rhythm::sequencer::Sequencer;

fn pattern(steps: &[(usize, u64)]) -> Vec<Event> {
    let mut p = Vec::new();
    for &(size_kb, delay_ms) in steps {
        p.push(Event::new(size_kb, delay_ms));
    }
    p
}

#[test]
fn two_event_pattern_twice() {
    let p = pattern(&[(2, 250), (1, 250)]);
    let mut s = Sequencer::new();
    s.run(&p, 2);
    assert_eq!(s.retained_count(), 4);
    assert_eq!(s.buffer_sizes(), vec![2048, 1024, 2048, 1024]);
    assert_eq!(s.retained_bytes(), Some(6144));
    assert_eq!(total_delay_ms(&p, 2), Some(1000));
}

#[test]
fn rest_only_pattern_once() {
    let p = pattern(&[(0, 1000)]);
    let mut s = Sequencer::new();
    s.run(&p, 1);
    assert_eq!(s.retained_count(), 0);
    assert_eq!(s.retained_bytes(), Some(0));
    assert_eq!(total_delay_ms(&p, 1), Some(1000));
}

#[test]
fn rest_event_retains_nothing() {
    let mut s = Sequencer::new();
    let delay = s.process_event(&Event::new(0, 750));
    assert_eq!(delay, 750);
    assert_eq!(s.retained_count(), 0);
    let _ = s.process_event(&Event::new(3, 10));
    assert_eq!(s.retained_count(), 1);
    let delay = s.process_event(&Event::new(0, 20));
    assert_eq!(delay, 20);
    assert_eq!(s.retained_count(), 1);
}

#[test]
fn non_rest_event_retains_one_zeroed_buffer() {
    let mut s = Sequencer::new();
    let delay = s.process_event(&Event::new(5, 125));
    assert_eq!(delay, 125);
    assert_eq!(s.retained_count(), 1);
    let buf = s.get_buffer(0);
    assert_eq!(buf.len(), 5 * 1024);
    for &byte in buf.iter() {
        assert_eq!(byte, 0u8);
    }
}

#[test]
fn buffer_count_is_repetitions_times_non_rest_events() {
    // The harder preset has 17 non-rest events out of 18.
    let p = alloc_rhythm::presets::harder_pattern();
    let mut s = Sequencer::new();
    s.run(&p, 2);
    assert_eq!(s.retained_count(), 2 * 17);
}

#[test]
fn total_bytes_is_repetitions_times_pattern_bytes() {
    // One pass over the harder preset allocates 41 KB.
    let p = alloc_rhythm::presets::harder_pattern();
    let mut s = Sequencer::new();
    s.run(&p, 2);
    assert_eq!(s.retained_bytes(), Some(2 * 41 * 1024));
}

#[test]
fn runs_accumulate() {
    let p = pattern(&[(1, 100), (0, 100), (2, 100)]);
    let mut s = Sequencer::new();
    s.run(&p, 1);
    assert_eq!(s.retained_count(), 2);
    s.run(&p, 2);
    assert_eq!(s.retained_count(), 6);
    assert_eq!(s.buffer_sizes(), vec![1024, 2048, 1024, 2048, 1024, 2048]);
}

#[test]
fn empty_pattern_retains_nothing() {
    let p = pattern(&[]);
    let mut s = Sequencer::new();
    s.run(&p, 100);
    assert_eq!(s.retained_count(), 0);
    assert_eq!(total_delay_ms(&p, 100), Some(0));
}

#[test]
fn zero_repetitions_do_nothing() {
    let p = pattern(&[(4, 500)]);
    let mut s = Sequencer::new();
    s.run(&p, 0);
    assert_eq!(s.retained_count(), 0);
    assert_eq!(total_delay_ms(&p, 0), Some(0));
}

#[test]
fn delay_sums_that_overflow_are_reported() {
    let p = pattern(&[(0, u64::MAX), (0, 1)]);
    assert_eq!(pattern_delay_ms(&p), None);
    assert_eq!(total_delay_ms(&p, 1), None);
    assert_eq!(total_delay_ms(&p, 0), Some(0));
    let q = pattern(&[(0, u64::MAX)]);
    assert_eq!(pattern_delay_ms(&q), Some(u64::MAX));
    assert_eq!(total_delay_ms(&q, 2), None);
}

#[test]
fn pattern_fits_checks_allocation_sizes() {
    assert!(pattern_fits(&pattern(&[(2, 250), (0, 100), (6, 1000)])));
    assert!(!pattern_fits(&pattern(&[(2, 250), (usize::MAX, 0)])));
    assert!(pattern_fits(&pattern(&[])));
}

#[test]
fn event_new_carries_its_fields() {
    let e = Event::new(7, 350);
    assert_eq!(e.size_kb, 7);
    assert_eq!(e.delay_ms, 350);
    assert_eq!(e, Event { size_kb: 7, delay_ms: 350 });
}
