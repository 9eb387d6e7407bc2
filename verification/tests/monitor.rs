use libafl_cc::decimal::u64_to_decimal;
use libafl_cc::monitor::{
    format_stats_line, EdgesCoverage, LibFuzzerMonitor, StatsSnapshot, VecSink,
};

#[test]
fn decimal_rendering_exact() {
    assert_eq!(u64_to_decimal(0), "0");
    assert_eq!(u64_to_decimal(7), "7");
    assert_eq!(u64_to_decimal(10), "10");
    assert_eq!(u64_to_decimal(12345), "12345");
    assert_eq!(u64_to_decimal(u64::MAX), "18446744073709551615");
}

#[test]
fn stats_line_with_coverage() {
    let stats = StatsSnapshot {
        total_execs: 123,
        corpus_size: 2,
        execs_per_sec: 7,
        edges_coverage: Some(EdgesCoverage { edges_hit: 5, edges_total: 10 }),
    };
    let line = format_stats_line(&stats, "NEW");
    assert_eq!(line, "#123\tNEW cov: 5 ft: 10 corp: 2 exec/s: 7");
}

#[test]
fn stats_line_omits_missing_coverage() {
    let stats = StatsSnapshot {
        total_execs: 1,
        corpus_size: 0,
        execs_per_sec: 0,
        edges_coverage: None,
    };
    let line = format_stats_line(&stats, "INITED");
    assert_eq!(line, "#1\tINITED corp: 0 exec/s: 0");
}

#[test]
fn monitor_emits_through_sink() {
    let mut monitor = LibFuzzerMonitor::new(VecSink::new());
    let first = StatsSnapshot {
        total_execs: 40,
        corpus_size: 3,
        execs_per_sec: 20,
        edges_coverage: None,
    };
    let second = StatsSnapshot {
        total_execs: 90,
        corpus_size: 4,
        execs_per_sec: 25,
        edges_coverage: Some(EdgesCoverage { edges_hit: 17, edges_total: 64 }),
    };
    monitor.display(&first, "NEW");
    monitor.display(&second, "REDUCE");
    assert_eq!(
        monitor.print_fn.lines,
        vec![
            "#40\tNEW corp: 3 exec/s: 20".to_string(),
            "#90\tREDUCE cov: 17 ft: 64 corp: 4 exec/s: 25".to_string(),
        ]
    );
}
