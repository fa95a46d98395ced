use anyrender::profiler::record_duration;
use anyrender::profiler::ProfilingLayer;

#[test]
fn totals_accumulate_per_name() {
    let mut layer = ProfilingLayer::new();
    record_duration(&mut layer, "draw", 10);
    record_duration(&mut layer, "flush", 5);
    record_duration(&mut layer, "draw", 32);
    assert_eq!(layer.len(), 2);
    assert_eq!(layer.total_for("draw"), Some(42));
    assert_eq!(layer.total_for("flush"), Some(5));
    assert_eq!(layer.total_for("present"), None);
}

#[test]
fn totals_saturate_instead_of_overflowing() {
    let mut layer = ProfilingLayer::new();
    record_duration(&mut layer, "draw", u64::MAX - 3);
    record_duration(&mut layer, "draw", 10);
    assert_eq!(layer.total_for("draw"), Some(u64::MAX));
}

#[test]
fn sorted_totals_orders_by_time_descending() {
    let mut layer = ProfilingLayer::new();
    record_duration(&mut layer, "cmd", 5);
    record_duration(&mut layer, "render", 42);
    record_duration(&mut layer, "cache next gen", 17);
    let summary = layer.sorted_totals();
    assert_eq!(summary.len(), 3);
    assert_eq!(summary[0].name, "render");
    assert_eq!(summary[0].total_nanos, 42);
    assert_eq!(summary[1].name, "cache next gen");
    assert_eq!(summary[1].total_nanos, 17);
    assert_eq!(summary[2].name, "cmd");
    assert_eq!(summary[2].total_nanos, 5);
}

#[test]
fn sorted_totals_of_empty_layer_is_empty() {
    let layer = ProfilingLayer::new();
    assert!(layer.sorted_totals().is_empty());
    assert_eq!(layer.len(), 0);
}
