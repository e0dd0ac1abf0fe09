use rust_tcp_bench::time_profiler::duration_ns;
use rust_tcp_bench::time_profiler::fmt_ns;
use rust_tcp_bench::time_profiler::nanos_as_u64;
use rust_tcp_bench::time_profiler::TimeProfiler;
use std::time::Duration;
use std::time::Instant;

#[test]
fn fmt_ns_readme_average_std() {
    assert_eq!(fmt_ns(8_987), "008mks987ns");
}

#[test]
fn fmt_ns_readme_median_tokio() {
    assert_eq!(fmt_ns(18_537), "018mks537ns");
}

#[test]
fn fmt_ns_zero_is_empty() {
    assert_eq!(fmt_ns(0), "");
}

#[test]
fn fmt_ns_every_component() {
    assert_eq!(fmt_ns(3_723_004_005_006), "01h02m03s004ms005mks006ns");
}

#[test]
fn fmt_ns_single_components() {
    assert_eq!(fmt_ns(1), "001ns");
    assert_eq!(fmt_ns(1_000), "001mks");
    assert_eq!(fmt_ns(1_000_000), "001ms");
    assert_eq!(fmt_ns(1_000_000_000), "01s");
    assert_eq!(fmt_ns(60_000_000_000), "01m");
    assert_eq!(fmt_ns(3_600_000_000_000), "01h");
}

#[test]
fn fmt_ns_zero_components_left_out() {
    assert_eq!(fmt_ns(3_600_000_000_007), "01h007ns");
    assert_eq!(fmt_ns(59_999_999_999), "59s999ms999mks999ns");
}

#[test]
fn fmt_ns_hours_beyond_two_digits() {
    assert_eq!(fmt_ns(360_000_000_000_000), "100h");
    assert_eq!(fmt_ns(u64::MAX), "5124095h34m33s709ms551mks615ns");
}

#[test]
fn profiler_starts_empty() {
    let p = TimeProfiler::new();
    assert!(p.is_empty());
    assert_eq!(p.len(), 0);
    assert_eq!(p.values(), &[] as &[u64]);
    assert_eq!(p.total_ns(), 0);
    assert_eq!(p.avg(), 0);
    assert_eq!(p.median(), 0);
    assert_eq!(p.fmt_avg_ns(), "");
    assert_eq!(p.fmt_median_ns(), "");
}

#[test]
fn profiler_statistics() {
    let mut p = TimeProfiler::new();
    p.add_value(30);
    p.add_value(10);
    p.add_value(25);
    p.add_value(5);
    assert!(!p.is_empty());
    assert_eq!(p.len(), 4);
    assert_eq!(p.values(), &[30, 10, 25, 5]);
    assert_eq!(p.total_ns(), 70);
    assert_eq!(p.avg(), 17);
    assert_eq!(p.median(), 25);
    p.prepare();
    assert_eq!(p.values(), &[5, 10, 25, 30]);
    assert_eq!(p.median(), 25);
    assert_eq!(p.total_ns(), 70);
    assert_eq!(p.fmt_avg_ns(), "017ns");
    assert_eq!(p.fmt_median_ns(), "025ns");
}

#[test]
fn prepare_twice_changes_nothing() {
    let mut p = TimeProfiler::new();
    for v in [7u64, 3, 9, 3, 1] {
        p.add_value(v);
    }
    p.prepare();
    let once = p.values().to_vec();
    p.prepare();
    assert_eq!(p.values(), once.as_slice());
    assert_eq!(once, vec![1, 3, 3, 7, 9]);
}

#[test]
fn mean_lies_between_extremes() {
    let mut p = TimeProfiler::new();
    for v in [1_000u64, 2_000, 9_000] {
        p.add_value(v);
    }
    let avg = p.avg();
    assert_eq!(avg, 4_000);
    assert!(1_000 <= avg && avg <= 9_000);
}

#[test]
fn add_duration_keeps_whole_nanoseconds() {
    let mut p = TimeProfiler::new();
    p.add_duration(Duration::from_nanos(1_500));
    p.add_duration(Duration::new(2, 7));
    assert_eq!(p.values(), &[1_500, 2_000_000_007]);
}

#[test]
fn add_duration_keeps_low_bits() {
    let mut p = TimeProfiler::new();
    p.add_duration(Duration::from_secs(20_000_000_000));
    assert_eq!(p.values(), &[1_553_255_926_290_448_384]);
}

#[test]
fn add_nanos_truncates() {
    let mut p = TimeProfiler::new();
    p.add_nanos(u64::MAX as u128 + 6);
    p.add_nanos(42);
    assert_eq!(p.values(), &[5, 42]);
    assert_eq!(nanos_as_u64(1u128 << 64), 0);
    assert_eq!(nanos_as_u64((1u128 << 64) + 3), 3);
}

#[test]
fn measure_appends_what_it_returns() {
    let mut p = TimeProfiler::new();
    p.add_value(1);
    let start = Instant::now();
    let v = p.measure(start);
    assert_eq!(p.len(), 2);
    assert_eq!(p.values()[1], v);
}

#[test]
fn fmt_delim_report() {
    let mut p = TimeProfiler::new();
    for v in [9_000u64, 8_000, 10_000] {
        p.add_value(v);
    }
    let s = p.fmt_delim("\n    ", ": ", "111111.11");
    assert_eq!(
        s,
        "count: 3\n    total: 027mks\n    avg: 009mks\n    median: 009mks\n    throughput: 111111.11/s"
    );
    assert_eq!(p.values(), &[8_000, 9_000, 10_000]);
}

#[test]
fn fmt_report_with_defaults() {
    let mut p = TimeProfiler::new();
    p.add_value(2_000_000_000);
    p.add_value(1);
    let s = p.fmt("1");
    assert_eq!(
        s,
        "count=2 total=02s001ns avg=01s median=02s throughput=1/s"
    );
}

#[test]
fn fmt_report_of_no_samples() {
    let mut p = TimeProfiler::new();
    assert_eq!(p.fmt("NaN"), "count=0 total= avg= median= throughput=NaN/s");
}

#[test]
fn different_durations_have_different_texts() {
    let samples = [0u64, 1, 10, 100, 1_000, 1_001, 60_000_000_000, 3_600_000_000_000, 3_600_000_000_001];
    for (i, a) in samples.iter().enumerate() {
        for b in samples.iter().skip(i + 1) {
            assert_ne!(fmt_ns(*a), fmt_ns(*b));
        }
    }
}

#[test]
fn length_counts_adding_calls() {
    let mut p = TimeProfiler::new();
    p.add_value(5);
    p.add_duration(Duration::from_nanos(3));
    p.prepare();
    let _ = p.fmt("1");
    p.add_nanos(9);
    let _ = p.measure(Instant::now());
    p.prepare();
    assert_eq!(p.len(), 4);
    assert_eq!(p.values().len(), 4);
}

#[test]
fn debug_text_shows_count_and_values() {
    let mut p = TimeProfiler::new();
    p.add_value(2);
    p.add_value(1);
    assert_eq!(format!("{:?}", p), "TimeProfiler { count: 0, values: [2, 1] }");
    let q = p.clone();
    assert_eq!(q.values(), &[2, 1]);
    assert_eq!(format!("{:?}", q), "TimeProfiler { count: 0, values: [2, 1] }");
}

#[test]
fn duration_ns_keeps_low_bits_of_nanoseconds() {
    assert_eq!(duration_ns(&Duration::from_micros(3)), 3_000);
    assert_eq!(duration_ns(&Duration::new(1, 5)), 1_000_000_005);
    assert_eq!(duration_ns(&Duration::from_secs(20_000_000_000)), 1_553_255_926_290_448_384);
}
