use rianixia_thermalcore::cpu::{
    calculate_load, CpuDeltaState, CpuLoadTracker, LoadSample, ProcStatValues,
};

fn load(s: LoadSample) -> f64 {
    if s.total_delta == 0 {
        0.0
    } else {
        (1.0 - s.idle_delta as f64 / s.total_delta as f64).clamp(0.0, 1.0)
    }
}

#[test]
fn from_line_reads_ten_counters() {
    let s = ProcStatValues::from_line("cpu  10 20 30 40 50 60 70 80 90 100").unwrap();
    assert_eq!((s.user, s.nice, s.system, s.idle, s.iowait), (10, 20, 30, 40, 50));
    assert_eq!((s.irq, s.softirq, s.steal, s.guest, s.guest_nice), (60, 70, 80, 90, 100));
    assert_eq!(s.get_total_time(), 550);
    assert_eq!(s.get_idle_time(), 90);
}

#[test]
fn from_line_zeroes_missing_and_bad_fields() {
    let s = ProcStatValues::from_line("cpu3 1 x 3").unwrap();
    assert_eq!((s.user, s.nice, s.system, s.idle, s.guest_nice), (1, 0, 3, 0, 0));
    assert!(ProcStatValues::from_line("   ").is_none());
}

#[test]
fn totals_saturate() {
    let s = ProcStatValues::from_line("cpu 18446744073709551615 5 0 18446744073709551615 7").unwrap();
    assert_eq!(s.get_total_time(), u64::MAX);
    assert_eq!(s.get_idle_time(), u64::MAX);
}

#[test]
fn first_sample_reports_no_load() {
    let s = ProcStatValues::from_line("cpu 100 0 100 800 0 0 0 0 0 0").unwrap();
    let (l, st) = calculate_load(&s, &CpuDeltaState::default());
    assert_eq!(load(l), 0.0);
    assert_eq!((st.last_total, st.last_idle), (1000, 800));
}

#[test]
fn load_between_two_samples() {
    let a = ProcStatValues::from_line("cpu 100 0 100 800 0 0 0 0 0 0").unwrap();
    let b = ProcStatValues::from_line("cpu 150 0 150 900 0 0 0 0 0 0").unwrap();
    let (_, st) = calculate_load(&a, &CpuDeltaState::default());
    let (l, st2) = calculate_load(&b, &st);
    assert_eq!((l.idle_delta, l.total_delta), (100, 200));
    assert!((load(l) - 0.5).abs() < 1e-9);
    assert_eq!(st2.last_total, 1200);
}

#[test]
fn exact_load_comparison() {
    let half = LoadSample { idle_delta: 1, total_delta: 2 };
    let third = LoadSample { idle_delta: 2, total_delta: 3 };
    let none = LoadSample { idle_delta: 0, total_delta: 0 };
    let over = LoadSample { idle_delta: 9, total_delta: 3 };
    assert!(half.is_above(&third));
    assert!(!third.is_above(&half));
    assert!(third.is_above(&none));
    assert!(!over.is_above(&none));
    assert!(!none.is_above(&over));
}

#[test]
fn scan_of_two_snapshots() {
    let mut t = CpuLoadTracker::new();
    let first = "cpu  100 0 100 800 0 0 0 0 0 0\ncpu0 50 0 50 400 0 0 0 0 0 0\ncpu1 50 0 50 400 0 0 0 0 0 0\nintr 1 2 3\ncpu2 1 1 1 1\n";
    let r = t.read_and_parse_stats(first).unwrap();
    assert_eq!(load(r.cpu_load), 0.0);
    assert_eq!(load(r.core_load_max), 0.0);
    assert_eq!(t.core_delta_states.len(), 2);
    let second = "cpu  200 0 200 1000 0 0 0 0 0 0\ncpu0 100 0 100 450 0 0 0 0 0 0\ncpu1 55 0 55 490 0 0 0 0 0 0\nintr 1\n";
    let r = t.read_and_parse_stats(second).unwrap();
    assert!((load(r.cpu_load) - 0.5).abs() < 1e-9);
    assert!((load(r.core_load_max) - 100.0 / 150.0).abs() < 1e-9);
    assert_eq!(t.agg_delta_state.last_total, 1400);
    assert_eq!(t.core_delta_states.len(), 2);
}

#[test]
fn scan_without_aggregate_line() {
    let mut t = CpuLoadTracker::new();
    assert!(t.read_and_parse_stats("cpu0 1 2 3 4\nintr 0\ncpu 1 2 3 4\n").is_none());
    assert_eq!(t.core_delta_states.len(), 1);
    assert_eq!(t.core_delta_states[0].0, "cpu0");
    assert_eq!(t.agg_delta_state.last_total, 0);
}

#[test]
fn samples_at_most_once_a_second() {
    let mut t = CpuLoadTracker::new();
    assert!(t.begin_sample(5));
    assert!(!t.begin_sample(5));
    assert!(t.begin_sample(6));
    assert_eq!(t.last_sample_time, 6);
    assert!(!t.begin_sample(3));
}
