use hdrhist::HDRHist;
use rust_tcp_bench::bench::random_message;
use rust_tcp_bench::bench::random_messages;
use rust_tcp_bench::bench::BenchRecorder;
use std::time::Duration;
use std::time::Instant;

#[test]
fn messages_have_the_asked_sizes() {
    assert_eq!(random_message(0).len(), 0);
    assert_eq!(random_message(1024).len(), 1024);
    let items = random_messages(5, 7);
    assert_eq!(items.len(), 5);
    for m in &items {
        assert_eq!(m.len(), 7);
    }
    assert!(random_messages(0, 3).is_empty());
}

#[test]
fn progress_every_tenth() {
    let r = BenchRecorder::new(100_000);
    assert_eq!(r.progress(0), Some(0));
    assert_eq!(r.progress(10_000), Some(10));
    assert_eq!(r.progress(90_000), Some(90));
    assert_eq!(r.progress(10_001), None);
    assert_eq!(r.final_progress(), Some(100));
}

#[test]
fn progress_of_uneven_runs() {
    let r = BenchRecorder::new(150);
    assert_eq!(r.progress(15), Some(15));
    assert_eq!(r.final_progress(), Some(150));
    let r = BenchRecorder::new(105);
    assert_eq!(r.progress(100), Some(100));
    assert_eq!(r.final_progress(), None);
}

#[test]
fn record_fills_profiles_and_second_half_histogram() {
    let mut r = BenchRecorder::new(100);
    let mut second_half = HDRHist::new();
    for i in 0..100usize {
        let started = Instant::now();
        let v = r.record(i, started, Duration::from_nanos(i as u64), Duration::from_nanos(7));
        if i >= 50 {
            second_half.add_value(v);
        }
    }
    let (total, sending, receiving, summary) = r.finish();
    assert_eq!(total.len(), 100);
    assert_eq!(sending.len(), 100);
    assert_eq!(receiving.len(), 100);
    assert_eq!(sending.values()[42], 42);
    assert_eq!(receiving.values()[99], 7);
    assert_eq!(summary, second_half.summary_string());
}

#[test]
fn first_half_stays_out_of_histogram() {
    let mut r = BenchRecorder::new(200);
    let started = Instant::now();
    r.record(0, started, Duration::from_nanos(1), Duration::from_nanos(1));
    let (total, _, _, summary) = r.finish();
    assert_eq!(total.len(), 1);
    assert_eq!(summary, HDRHist::new().summary_string());
}
