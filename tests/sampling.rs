use proctree::sampler::{
    cpu_percent_hundredths, get_cpu_tick, get_mem_usage, get_mem_usage_pids, tick_deltas,
};

fn stat(utime: u64, stime: u64, rss: u64) -> String {
    let mut fields: Vec<String> = (0..52).map(|_| "0".to_string()).collect();
    fields[1] = "(p)".to_string();
    fields[13] = utime.to_string();
    fields[14] = stime.to_string();
    fields[23] = rss.to_string();
    fields.join(" ")
}

#[test]
fn memory_over_empty_set_is_zero() {
    assert_eq!(get_mem_usage_pids(&Vec::new()), 0);
}

#[test]
fn memory_sums_readable_processes() {
    let stats = vec![Some(stat(0, 0, 10)), None, Some(stat(0, 0, 5))];
    assert_eq!(get_mem_usage_pids(&stats), 60);
    assert_eq!(get_mem_usage(&None), 0);
    assert_eq!(get_mem_usage(&Some(stat(0, 0, 3))), 12);
}

#[test]
fn cpu_ticks_per_process_in_order() {
    let stats = vec![Some(stat(1, 2, 0)), Some(stat(10, 0, 0))];
    assert_eq!(get_cpu_tick(&stats), Some(vec![3, 10]));
    assert_eq!(get_cpu_tick(&Vec::new()), Some(vec![]));
}

#[test]
fn cpu_ticks_fail_when_a_process_is_unreadable() {
    let stats = vec![Some(stat(1, 2, 0)), None];
    assert_eq!(get_cpu_tick(&stats), None);
}

#[test]
fn two_processes_one_idle_give_five_percent() {
    let before = vec![10, 20];
    let after = vec![15, 20];
    assert_eq!(tick_deltas(&before, &after), vec![5, 0]);
    assert_eq!(cpu_percent_hundredths(&before, &after, 1000, 1100), 500);
}

#[test]
fn no_system_time_gives_zero_percent() {
    assert_eq!(cpu_percent_hundredths(&vec![0], &vec![50], 100, 100), 0);
    assert_eq!(cpu_percent_hundredths(&vec![0], &vec![50], 200, 100), 0);
}

#[test]
fn backward_counter_saturates_to_zero() {
    assert_eq!(tick_deltas(&vec![30, 5], &vec![20, 9]), vec![0, 4]);
    assert_eq!(cpu_percent_hundredths(&vec![30], &vec![20], 0, 100), 0);
}

#[test]
fn percent_rounds_to_hundredths() {
    assert_eq!(cpu_percent_hundredths(&vec![0], &vec![1], 0, 3), 3333);
    assert_eq!(cpu_percent_hundredths(&vec![0], &vec![2], 0, 3), 6667);
    assert_eq!(cpu_percent_hundredths(&vec![0, 0], &vec![4, 4], 0, 4), 20000);
}
