use heirloom_backend::batching::{env_usize, AdaptiveBatcher, BatchConfig, LatencyWindow};
use heirloom_backend::clock::Duration;
use heirloom_backend::strmap::StrMap;

fn test_config() -> BatchConfig {
    BatchConfig {
        min_batch_size: 5,
        max_batch_size: 100,
        initial_batch_size: 20,
        target_latency: Duration::from_millis(100),
        window: 5,
    }
}

#[test]
fn test_initial_batch_size() {
    let mut batcher = AdaptiveBatcher::new(test_config());
    assert_eq!(batcher.current_batch_size(), 20);
}

#[test]
fn test_grows_when_under_target_latency() {
    let mut batcher = AdaptiveBatcher::new(test_config());
    batcher.record_batch(20, Duration::from_millis(10));
    assert!(batcher.current_batch_size() > 20);
}

#[test]
fn test_shrinks_when_over_target_latency() {
    let mut batcher = AdaptiveBatcher::new(test_config());
    batcher.record_batch(20, Duration::from_millis(500));
    assert!(batcher.current_batch_size() < 20);
}

#[test]
fn test_respects_max_limit() {
    let mut batcher = AdaptiveBatcher::new(test_config());
    for _ in 0..50 {
        let size = batcher.current_batch_size();
        batcher.record_batch(size, Duration::from_millis(1));
    }
    assert!(batcher.current_batch_size() <= 100);
}

#[test]
fn test_respects_min_limit() {
    let mut batcher = AdaptiveBatcher::new(test_config());
    for _ in 0..50 {
        let size = batcher.current_batch_size();
        batcher.record_batch(size, Duration::from_secs(10));
    }
    assert!(batcher.current_batch_size() >= 5);
}

#[test]
fn test_metrics_tracked() {
    let mut batcher = AdaptiveBatcher::new(test_config());
    batcher.record_batch(20, Duration::from_millis(10));
    batcher.record_batch(25, Duration::from_millis(10));

    let metrics = batcher.metrics();
    assert_eq!(metrics.batches_processed_total, 2);
    assert_eq!(metrics.items_processed_total, 45);
    assert!(metrics.average_latency_ms.is_some());
}

#[test]
fn latency_window_averages_the_latest_samples() {
    let mut window = LatencyWindow::new(2);
    assert_eq!(window.average(), None);
    window.push(Duration::from_millis(100));
    window.push(Duration::from_millis(10));
    window.push(Duration::from_millis(30));
    assert_eq!(window.average(), Some(Duration::from_millis(20)));
}

#[test]
fn batch_settings_fall_back_to_their_defaults() {
    let mut vars: StrMap<String> = StrMap::new();
    assert_eq!(env_usize(&vars, "KEY", 7), 7);
    vars.insert("KEY".to_string(), "12".to_string());
    assert_eq!(env_usize(&vars, "KEY", 7), 12);
    vars.insert("KEY".to_string(), "twelve".to_string());
    assert_eq!(env_usize(&vars, "KEY", 7), 7);
    let config = BatchConfig::from_env(&vars);
    assert!(config.min_batch_size <= config.max_batch_size);
}

#[test]
fn batch_metrics_are_rendered() {
    let mut batcher = AdaptiveBatcher::new(test_config());
    batcher.record_batch(20, Duration::from_millis(10));
    let text = batcher.render_prometheus();
    assert!(text.contains("batches_processed_total 1"));
    assert!(text.contains("items_processed_total 20"));
}
