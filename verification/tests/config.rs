use trae_cli::performance_patterns::PerformanceConfig;

#[test]
fn test_performance_config_auto_tune() {
    let config = PerformanceConfig::auto_tune();
    assert!(config.thread_count > 0);
    assert!(config.cache_size > 0);
    assert!(config.batch_size > 0);
}

#[test]
fn test_pso_optimization() {
    let config = PerformanceConfig::auto_tune();
    assert!(config.thread_count > 0);
    assert!(config.cache_size > 0);
}

#[test]
fn tuned_for_derives_everything_from_the_core_count() {
    let small = PerformanceConfig::tuned_for(4);
    assert_eq!(
        small,
        PerformanceConfig {
            thread_count: 4,
            cache_size: 800,
            batch_size: 50,
            timeout_ms: 10000,
            parallel_threshold: 40,
        }
    );
    let large = PerformanceConfig::tuned_for(8);
    assert_eq!(
        large,
        PerformanceConfig {
            thread_count: 8,
            cache_size: 1600,
            batch_size: 200,
            timeout_ms: 10000,
            parallel_threshold: 80,
        }
    );
}

#[test]
fn auto_tune_is_the_baseline_of_its_thread_count() {
    let config = PerformanceConfig::auto_tune();
    assert_eq!(config, PerformanceConfig::tuned_for(config.thread_count));
}

#[test]
fn default_config_has_the_documented_constants() {
    let config = PerformanceConfig::default();
    assert!(config.thread_count >= 1);
    assert_eq!(config.cache_size, 1000);
    assert_eq!(config.batch_size, 100);
    assert_eq!(config.timeout_ms, 5000);
    assert_eq!(config.parallel_threshold, 50);
}

#[test]
fn pso_optimize_keeps_the_baseline() {
    let base = PerformanceConfig {
        thread_count: 3,
        cache_size: 77,
        batch_size: 12,
        timeout_ms: 999,
        parallel_threshold: 31,
    };
    assert_eq!(PerformanceConfig::pso_optimize(base), base);
}

#[test]
fn mutate_config_scales_and_keeps_floors() {
    let base = PerformanceConfig {
        thread_count: 1,
        cache_size: 10,
        batch_size: 11,
        timeout_ms: 1000,
        parallel_threshold: 6,
    };
    assert_eq!(
        PerformanceConfig::mutate_config(&base, 80),
        PerformanceConfig {
            thread_count: 1,
            cache_size: 8,
            batch_size: 10,
            timeout_ms: 800,
            parallel_threshold: 5,
        }
    );
    assert_eq!(
        PerformanceConfig::mutate_config(&base, 120),
        PerformanceConfig {
            thread_count: 1,
            cache_size: 12,
            batch_size: 13,
            timeout_ms: 1200,
            parallel_threshold: 7,
        }
    );
}

fn config_with(batch_size: usize, parallel_threshold: usize) -> PerformanceConfig {
    PerformanceConfig { thread_count: 4, cache_size: 100, batch_size, timeout_ms: 1000, parallel_threshold }
}

#[test]
fn quick_and_numerous_work_lowers_the_threshold() {
    let mut config = config_with(100, 50);
    config.adjust_for_workload(9, 51);
    assert_eq!(config.parallel_threshold, 40);
    assert_eq!(config.batch_size, 100);
}

#[test]
fn quick_but_few_items_leave_the_threshold() {
    let mut config = config_with(100, 50);
    config.adjust_for_workload(9, 50);
    assert_eq!(config.parallel_threshold, 50);
}

#[test]
fn slow_work_raises_the_threshold() {
    let mut config = config_with(100, 50);
    config.adjust_for_workload(101, 1000);
    assert_eq!(config.parallel_threshold, 60);
    assert_eq!(config.batch_size, 70);
}

#[test]
fn threshold_is_unchanged_between_ten_and_a_hundred_milliseconds() {
    let mut config = config_with(100, 50);
    config.adjust_for_workload(10, 1000);
    assert_eq!(config.parallel_threshold, 50);
    config.adjust_for_workload(100, 1000);
    assert_eq!(config.parallel_threshold, 50);
}

#[test]
fn batch_size_follows_the_three_buckets() {
    let mut config = config_with(100, 50);
    config.adjust_for_workload(5, 0);
    assert_eq!(config.batch_size, 200);
    config.adjust_for_workload(6, 0);
    assert_eq!(config.batch_size, 200);
    config.adjust_for_workload(50, 0);
    assert_eq!(config.batch_size, 200);
    config.adjust_for_workload(51, 0);
    assert_eq!(config.batch_size, 140);
}

#[test]
fn batch_size_never_drops_below_ten() {
    let mut config = config_with(12, 50);
    config.adjust_for_workload(60, 0);
    assert_eq!(config.batch_size, 10);
    config.adjust_for_workload(60, 0);
    assert_eq!(config.batch_size, 10);
    let mut tiny = config_with(3, 50);
    tiny.adjust_for_workload(1, 0);
    assert_eq!(tiny.batch_size, 10);
}

#[test]
fn adjustments_saturate_at_the_largest_value() {
    let mut config = config_with(usize::MAX, usize::MAX);
    config.adjust_for_workload(200, 0);
    assert_eq!(config.parallel_threshold, usize::MAX);
    let mut doubling = config_with(usize::MAX, 1);
    doubling.adjust_for_workload(0, 0);
    assert_eq!(doubling.batch_size, usize::MAX);
}

#[test]
fn a_threshold_of_one_is_not_scaled_down_to_zero() {
    let mut config = config_with(50, 1);
    config.adjust_for_workload(3, 7);
    assert_eq!(config.parallel_threshold, 1);
    config.adjust_for_workload(200, 7);
    assert_eq!(config.parallel_threshold, 1);
    let mut two = config_with(50, 2);
    two.adjust_for_workload(3, 7);
    assert_eq!(two.parallel_threshold, 1);
    two.adjust_for_workload(3, 7);
    assert_eq!(two.parallel_threshold, 1);
}

#[test]
fn adjustments_keep_every_parameter_positive() {
    for threshold in [1usize, 2, 5, 50, usize::MAX] {
        for batch in [1usize, 9, 10, 50, usize::MAX] {
            for millis in [0u128, 5, 6, 9, 10, 50, 51, 100, 101, 5000] {
                for items in [0usize, 1, 2, 100, usize::MAX] {
                    let mut config = config_with(batch, threshold);
                    config.adjust_for_workload(millis, items);
                    assert!(config.thread_count > 0 && config.cache_size > 0 && config.timeout_ms > 0);
                    assert!(config.batch_size >= 10);
                    assert!(config.parallel_threshold >= 1);
                }
            }
        }
    }
}
