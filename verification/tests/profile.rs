use ocp_midstreamer::profile::{
    calculate_max_parallelism, compute_stats, detect_spec_boundary, parse_cpu_millicores,
    parse_memory_bytes, SpecEvent, UsageStats,
};

#[test]
fn test_parse_cpu_millicore_suffix() {
    assert_eq!(parse_cpu_millicores("100m"), Some(100));
}

#[test]
fn test_parse_cpu_whole_cores() {
    assert_eq!(parse_cpu_millicores("1"), Some(1000));
}

#[test]
fn test_parse_cpu_fractional() {
    assert_eq!(parse_cpu_millicores("0.5"), Some(500));
}

#[test]
fn test_parse_cpu_large_millicore() {
    assert_eq!(parse_cpu_millicores("1500m"), Some(1500));
}

#[test]
fn test_parse_cpu_nanocores() {
    assert_eq!(parse_cpu_millicores("250000000n"), Some(250));
}

#[test]
fn test_parse_cpu_empty() {
    assert_eq!(parse_cpu_millicores(""), None);
}

#[test]
fn test_parse_memory_mi() {
    assert_eq!(parse_memory_bytes("128Mi"), Some(134217728));
}

#[test]
fn test_parse_memory_gi() {
    assert_eq!(parse_memory_bytes("1Gi"), Some(1073741824));
}

#[test]
fn test_parse_memory_k() {
    assert_eq!(parse_memory_bytes("256K"), Some(256000));
}

#[test]
fn test_parse_memory_plain_bytes() {
    assert_eq!(parse_memory_bytes("128974848"), Some(128974848));
}

#[test]
fn test_parse_memory_empty() {
    assert_eq!(parse_memory_bytes(""), None);
}

#[test]
fn test_compute_stats_nonempty() {
    let stats = compute_stats(&[100, 200, 300]);
    assert_eq!(stats, UsageStats { min: 100, max: 300, avg: 200, p95: 300 });
}

#[test]
fn test_compute_stats_empty() {
    let stats = compute_stats(&[]);
    assert_eq!(stats, UsageStats { min: 0, max: 0, avg: 0, p95: 0 });
}

#[test]
fn test_parallelism_basic() {
    // available = 8000 - 2000 = 6000, safe = 6000 * 0.8 = 4800, max = 4800 / 1500 = 3
    assert_eq!(calculate_max_parallelism(8000, 2000, 1500, 20), 3);
}

#[test]
fn test_parallelism_minimum_one() {
    // Even if no room, returns at least 1
    assert_eq!(calculate_max_parallelism(2000, 2000, 1500, 20), 1);
}

#[test]
fn test_detect_spec_start_executing() {
    assert_eq!(
        detect_spec_boundary("# Executing specification specs/pipeline_test.spec"),
        Some(SpecEvent::SpecStart("specs/pipeline_test.spec".to_string()))
    );
}

#[test]
fn test_detect_spec_start_heading() {
    assert_eq!(
        detect_spec_boundary("## Pipeline E2E Tests"),
        Some(SpecEvent::SpecStart("Pipeline E2E Tests".to_string()))
    );
}

#[test]
fn test_detect_spec_start_executing_spec() {
    assert_eq!(
        detect_spec_boundary("Executing Spec: specs/triggers.spec"),
        Some(SpecEvent::SpecStart("specs/triggers.spec".to_string()))
    );
}

#[test]
fn test_detect_spec_end_generated() {
    assert_eq!(
        detect_spec_boundary("Successfully generated html-report to => /tmp/reports"),
        Some(SpecEvent::SpecEnd)
    );
}

#[test]
fn test_detect_spec_end_specifications() {
    assert_eq!(
        detect_spec_boundary("Specifications: 3 executed, 2 passed, 1 failed"),
        Some(SpecEvent::SpecEnd)
    );
}

#[test]
fn test_detect_spec_end_scenarios() {
    assert_eq!(
        detect_spec_boundary("Scenarios: 10 executed, 8 passed, 2 failed"),
        Some(SpecEvent::SpecEnd)
    );
}

#[test]
fn test_detect_spec_boundary_none() {
    assert_eq!(detect_spec_boundary("some random output line"), None);
}

#[test]
fn parse_cpu_rounds_cores_down_to_millicores() {
    assert_eq!(parse_cpu_millicores("0.0015"), Some(1));
    assert_eq!(parse_cpu_millicores(" 2.25 "), Some(2250));
    assert_eq!(parse_cpu_millicores(".5"), Some(500));
    assert_eq!(parse_cpu_millicores("5."), Some(5000));
    assert_eq!(parse_cpu_millicores("."), None);
    assert_eq!(parse_cpu_millicores("-1"), Some(0));
    assert_eq!(parse_cpu_millicores("abc"), None);
    assert_eq!(parse_cpu_millicores("xm"), None);
    assert_eq!(parse_cpu_millicores("99999999999999999999999"), Some(u64::MAX));
}

#[test]
fn parse_memory_knows_every_suffix() {
    assert_eq!(parse_memory_bytes("1Ki"), Some(1024));
    assert_eq!(parse_memory_bytes("2Ti"), Some(2 * 1024 * 1024 * 1024 * 1024));
    assert_eq!(parse_memory_bytes("3T"), Some(3_000_000_000_000));
    assert_eq!(parse_memory_bytes("4G"), Some(4_000_000_000));
    assert_eq!(parse_memory_bytes("5M"), Some(5_000_000));
    assert_eq!(parse_memory_bytes("Mi"), None);
    assert_eq!(parse_memory_bytes("12x"), None);
    assert_eq!(parse_memory_bytes("18446744073709551615Ki"), None);
}

#[test]
fn compute_stats_sorts_before_it_ranks() {
    let stats = compute_stats(&[5, 1, 4, 2, 3]);
    assert_eq!(stats, UsageStats { min: 1, max: 5, avg: 3, p95: 5 });
    let mut twenty: Vec<u64> = Vec::new();
    for i in 0..20u64 {
        twenty.push(20 - i);
    }
    let stats = compute_stats(&twenty);
    assert_eq!(stats, UsageStats { min: 1, max: 20, avg: 10, p95: 19 });
    let stats = compute_stats(&[u64::MAX, u64::MAX]);
    assert_eq!(stats.avg, u64::MAX);
}
