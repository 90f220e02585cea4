use trae_cli::performance_patterns::dispatch::{
    calculate_tensor_chunks, choose_mode, workload_mode, DispatchMode,
};
use trae_cli::performance_patterns::threshold::tensor_analyze_workload;
use trae_cli::performance_patterns::{chunked_parallel_process, parallel_process, PerformanceConfig};

/// The effective threshold in floating point: the base threshold scaled by
/// the clamped product of the size factor and the thread factor.
fn floating_threshold(len: usize, config: &PerformanceConfig) -> usize {
    let size_factor = (len.max(1) as f64).log2() / 10.0;
    let thread_factor = config.thread_count as f64 / 8.0;
    let factor = (size_factor * thread_factor * 1.5).clamp(0.5, 2.0);
    (config.parallel_threshold as f64 * factor) as usize
}

fn config_of(thread_count: usize, parallel_threshold: usize) -> PerformanceConfig {
    PerformanceConfig { thread_count, cache_size: 100, batch_size: 10, timeout_ms: 1000, parallel_threshold }
}

fn config_with_threads(thread_count: usize) -> PerformanceConfig {
    config_of(thread_count, 50)
}

#[test]
fn test_parallel_process() {
    let config = PerformanceConfig::default();
    let items = vec![1, 2, 3, 4, 5];
    let results = parallel_process(items, |x| x * 2, &config).unwrap();
    assert_eq!(results, vec![2, 4, 6, 8, 10]);
}

#[test]
fn effective_threshold_scales_the_base_threshold() {
    // factor 1.5: log2(1024) / 10 = 1, 8 threads / 8 = 1
    assert_eq!(tensor_analyze_workload(1024, &config_of(8, 50)), 75);
    // 80 * (log2(1000) / 10) * 1.5 = 119.58...
    assert_eq!(tensor_analyze_workload(1000, &config_of(8, 80)), 119);
    assert_eq!(tensor_analyze_workload(100, &config_of(8, 80)), 79);
    assert_eq!(tensor_analyze_workload(300, &config_of(4, 100)), 61);
    assert_eq!(tensor_analyze_workload(5000, &config_of(8, 50)), 92);
    assert_eq!(tensor_analyze_workload(40, &config_of(8, 20)), 15);
}

#[test]
fn effective_threshold_is_never_below_half_the_base() {
    assert_eq!(tensor_analyze_workload(5, &config_of(4, 50)), 25);
    assert_eq!(tensor_analyze_workload(0, &config_of(4, 50)), 25);
    assert_eq!(tensor_analyze_workload(1, &config_of(4, 51)), 25);
    assert_eq!(tensor_analyze_workload(101, &config_of(4, 50)), 25);
    assert_eq!(tensor_analyze_workload(5000, &config_of(1, 50)), 25);
    assert_eq!(tensor_analyze_workload(5000, &config_of(0, 50)), 25);
}

#[test]
fn effective_threshold_is_never_above_twice_the_base() {
    assert_eq!(tensor_analyze_workload(1_048_576, &config_of(16, 50)), 100);
    assert_eq!(tensor_analyze_workload(2, &config_of(1000, 7)), 14);
    assert_eq!(tensor_analyze_workload(usize::MAX, &config_of(usize::MAX, 3)), 6);
    assert_eq!(tensor_analyze_workload(1_048_576, &config_of(16, usize::MAX)), usize::MAX);
}

#[test]
fn effective_threshold_is_exact_where_the_product_is_whole() {
    // 160 * (7 / 10) * 1.5 = 168, which rounding errors must not turn into 167
    assert_eq!(tensor_analyze_workload(128, &config_of(8, 160)), 168);
    assert_eq!(tensor_analyze_workload(32, &config_of(8, 80)), 60);
    assert_eq!(tensor_analyze_workload(1024, &config_of(4, 80)), 60);
}

#[test]
fn effective_threshold_agrees_with_floating_point() {
    for len in [2usize, 3, 10, 100, 1000, 5000, 65_537] {
        for threads in [1usize, 2, 4, 8, 16, 32] {
            for base in [0usize, 1, 10, 50, 80, 333] {
                let config = config_of(threads, base);
                assert_eq!(tensor_analyze_workload(len, &config), floating_threshold(len, &config));
            }
        }
    }
}

#[test]
fn workload_mode_compares_the_length_with_the_effective_threshold() {
    for threads in [1usize, 4, 8] {
        for base in [0usize, 1, 20, 50] {
            let config = config_of(threads, base);
            for len in 0..130usize {
                let threshold = tensor_analyze_workload(len, &config);
                assert_eq!(workload_mode(len, &config), choose_mode(len, threshold));
            }
        }
    }
}

#[test]
fn results_keep_input_order_for_every_thread_count() {
    let items: Vec<u64> = (0..5000).collect();
    let expected: Vec<u64> = items.iter().map(|x| x * x + 1).collect();
    for threads in [1usize, 2, 8] {
        let config = config_with_threads(threads);
        assert_eq!(workload_mode(items.len(), &config), DispatchMode::Parallel);
        let out = parallel_process(items.clone(), |x| x * x + 1, &config).unwrap();
        assert_eq!(out, expected);
    }
}

#[test]
fn sequential_and_parallel_paths_agree() {
    let items: Vec<u32> = (0..300).collect();
    let parallel = config_of(4, 0);
    let sequential = config_of(4, usize::MAX);
    assert_eq!(workload_mode(items.len(), &parallel), DispatchMode::Parallel);
    assert_eq!(workload_mode(items.len(), &sequential), DispatchMode::Sequential);
    let on_pool = parallel_process(items.clone(), |x| x + 7, &parallel).unwrap();
    let in_place = parallel_process(items.clone(), |x| x + 7, &sequential).unwrap();
    assert_eq!(on_pool, in_place);
}

#[test]
fn threshold_is_the_switch_between_the_modes() {
    let threshold = 25;
    assert_eq!(choose_mode(threshold - 1, threshold), DispatchMode::Sequential);
    assert_eq!(choose_mode(threshold, threshold), DispatchMode::Sequential);
    assert_eq!(choose_mode(threshold + 1, threshold), DispatchMode::Parallel);
}

#[test]
fn below_the_threshold_work_stays_in_the_calling_thread() {
    let config = config_with_threads(4);
    let items: Vec<u32> = (0..24).collect();
    assert_eq!(tensor_analyze_workload(items.len(), &config), 25);
    let out = parallel_process(items, |_| rayon::current_thread_index().is_some(), &config).unwrap();
    assert_eq!(out.len(), 24);
    assert!(out.iter().all(|on_pool| !*on_pool));
}

#[test]
fn above_the_threshold_work_runs_on_the_pool() {
    let config = config_with_threads(4);
    let items: Vec<u32> = (0..26).collect();
    assert_eq!(tensor_analyze_workload(items.len(), &config), 25);
    let out = parallel_process(items, |_| rayon::current_thread_index().is_some(), &config).unwrap();
    assert_eq!(out.len(), 26);
    assert!(out.iter().all(|on_pool| *on_pool));
}

#[test]
fn the_switch_follows_a_scaled_threshold() {
    // with 8 threads and a base of 80 the threshold is 74 for 74 and for 75 items
    let config = config_of(8, 80);
    assert_eq!(tensor_analyze_workload(74, &config), 74);
    assert_eq!(tensor_analyze_workload(75, &config), 74);
    let at: Vec<u32> = (0..74).collect();
    let out = parallel_process(at, |_| rayon::current_thread_index().is_some(), &config).unwrap();
    assert!(out.iter().all(|on_pool| !*on_pool));
    let above: Vec<u32> = (0..75).collect();
    let out = parallel_process(above, |_| rayon::current_thread_index().is_some(), &config).unwrap();
    assert!(out.iter().all(|on_pool| *on_pool));
}

#[test]
fn empty_input_gives_empty_output() {
    let config = config_with_threads(2);
    let out: Vec<u8> = parallel_process(Vec::<u8>::new(), |x| x, &config).unwrap();
    assert!(out.is_empty());
}

#[test]
fn chunk_length_matches_the_formula() {
    // items per thread divided by half the square root of the thread count
    assert_eq!(calculate_tensor_chunks(1000, 4), 250);
    assert_eq!(calculate_tensor_chunks(1000, 1), 2000);
    assert_eq!(calculate_tensor_chunks(1000, 16), 31);
    assert_eq!(calculate_tensor_chunks(100, 8), 8);
    assert_eq!(calculate_tensor_chunks(3, 8), 1);
    assert_eq!(calculate_tensor_chunks(0, 3), 1);
    assert_eq!(calculate_tensor_chunks(usize::MAX, 1), usize::MAX);
}

#[test]
fn chunk_length_agrees_with_floating_point() {
    for total in [0usize, 1, 7, 10, 99, 100, 1234, 65_536, 1_000_003] {
        for threads in [1usize, 2, 3, 4, 5, 8, 16, 64] {
            let base = total / threads;
            let expected = ((base as f64) / ((threads as f64).sqrt() / 2.0)).max(1.0) as usize;
            assert_eq!(calculate_tensor_chunks(total, threads), expected);
        }
    }
}

#[test]
fn chunks_are_processed_in_batch_order() {
    let items: Vec<usize> = (1..=25).collect();
    let config = PerformanceConfig {
        thread_count: 4,
        cache_size: 100,
        batch_size: 10,
        timeout_ms: 1000,
        parallel_threshold: 20,
    };
    let sums = chunked_parallel_process(items, |chunk| vec![chunk.iter().sum::<usize>()], &config).unwrap();
    assert_eq!(sums, vec![55, 155, 115]);
}

#[test]
fn chunked_results_are_flattened_in_slice_order() {
    let items: Vec<u32> = (0..10).collect();
    for threshold in [0usize, 100] {
        let config = PerformanceConfig {
            thread_count: 2,
            cache_size: 100,
            batch_size: 3,
            timeout_ms: 1000,
            parallel_threshold: threshold,
        };
        let out = chunked_parallel_process(items.clone(), |chunk| chunk.iter().map(|x| x * 10).collect(), &config).unwrap();
        assert_eq!(out, vec![0, 10, 20, 30, 40, 50, 60, 70, 80, 90]);
    }
}

#[test]
fn a_single_batch_is_processed_in_the_calling_thread() {
    let config = PerformanceConfig {
        thread_count: 4,
        cache_size: 100,
        batch_size: 10,
        timeout_ms: 1000,
        parallel_threshold: 0,
    };
    let items: Vec<u32> = (0..10).collect();
    let out =
        chunked_parallel_process(items, |_| vec![rayon::current_thread_index().is_some()], &config).unwrap();
    assert_eq!(out, vec![false]);
    let more: Vec<u32> = (0..11).collect();
    let out =
        chunked_parallel_process(more, |_| vec![rayon::current_thread_index().is_some()], &config).unwrap();
    assert_eq!(out, vec![true, true]);
}

#[test]
fn chunked_empty_input_gives_empty_output() {
    let config = config_with_threads(2);
    let out: Vec<u8> = chunked_parallel_process(Vec::<u8>::new(), |c| c.to_vec(), &config).unwrap();
    assert!(out.is_empty());
}

#[test]
fn large_thresholds_are_scaled_exactly() {
    // 50000 * 12 * log2(100000) / 160 = 62286.15...
    assert_eq!(tensor_analyze_workload(100_000, &config_of(4, 50_000)), 62_286);
    assert_eq!(tensor_analyze_workload(5000, &config_of(8, 20_000)), 36_863);
    assert_eq!(tensor_analyze_workload(1024, &config_of(4, 1_000_000)), 750_000);
    assert_eq!(tensor_analyze_workload(5000, &config_of(8, 1_000_000_000_000)), 1_843_156_856_932);
    assert_eq!(tensor_analyze_workload(3, &config_of(20, 1 << 40)), 653_506_762_174);
    assert_eq!(tensor_analyze_workload(1024, &config_of(4, 1_000_000_000_000)), 750_000_000_000);
    assert_eq!(tensor_analyze_workload(1 << 32, &config_of(2, 1 << 45)), 42_221_246_506_598);
}

#[test]
fn the_switch_is_found_for_a_large_threshold() {
    // 3750 * log2(59474) = 59474.2...: the threshold is 59474 at the switch
    let config = config_of(4, 50_000);
    assert_eq!(tensor_analyze_workload(59_474, &config), 59_474);
    assert_eq!(tensor_analyze_workload(59_475, &config), 59_474);
    assert_eq!(workload_mode(59_474, &config), DispatchMode::Sequential);
    assert_eq!(workload_mode(59_475, &config), DispatchMode::Parallel);
    assert_eq!(workload_mode(25_000, &config), DispatchMode::Sequential);
    assert_eq!(workload_mode(100_001, &config), DispatchMode::Parallel);
}
