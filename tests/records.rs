use proctree::record::{get_cpu_usage, get_memory_usage, get_system_cpu_usage, ProcessRecord};
use proctree::text::split_words;

fn stat_line(utime: &str, stime: &str, rss: &str) -> String {
    let mut fields: Vec<String> = Vec::new();
    fields.push("123".to_string());
    fields.push("(worker)".to_string());
    fields.push("S".to_string());
    for i in 3..52 {
        let f = match i {
            13 => utime.to_string(),
            14 => stime.to_string(),
            23 => rss.to_string(),
            _ => "1".to_string(),
        };
        fields.push(f);
    }
    fields.join(" ")
}

#[test]
fn record_reads_ticks_and_pages() {
    let r = ProcessRecord::parse(&stat_line("150", "50", "1000"));
    assert_eq!(
        r,
        ProcessRecord {
            user_ticks: 150,
            kernel_ticks: 50,
            rss_pages: 1000
        }
    );
    assert_eq!(r.cpu_ticks(), 200);
    assert_eq!(r.memory_usage_kb(), 4000);
}

#[test]
fn memory_is_four_kb_per_page() {
    let fields = split_words(&stat_line("0", "0", "256"));
    assert_eq!(get_memory_usage(&fields), 1024);
    let fields = split_words(&stat_line("0", "0", "0"));
    assert_eq!(get_memory_usage(&fields), 0);
}

#[test]
fn cpu_ticks_add_user_and_kernel() {
    let fields = split_words(&stat_line("7", "5", "1"));
    assert_eq!(get_cpu_usage(&fields), 12);
}

#[test]
fn non_numeric_fields_count_as_zero() {
    let fields = split_words(&stat_line("x", "5", "-3"));
    assert_eq!(get_cpu_usage(&fields), 5);
    assert_eq!(get_memory_usage(&fields), 0);
}

#[test]
fn missing_fields_count_as_zero() {
    let fields = split_words("1 (a) S 1 2 3 4 5 6 7 8 9 10 20");
    assert_eq!(get_cpu_usage(&fields), 20);
    assert_eq!(get_memory_usage(&fields), 0);
    assert_eq!(get_cpu_usage(&Vec::new()), 0);
}

#[test]
fn large_values_saturate() {
    let r = ProcessRecord {
        user_ticks: u64::MAX,
        kernel_ticks: 1,
        rss_pages: u64::MAX / 2,
    };
    assert_eq!(r.cpu_ticks(), u64::MAX);
    assert_eq!(r.memory_usage_kb(), u64::MAX);
}

#[test]
fn system_cpu_sums_first_line_after_label() {
    let text = "cpu  10 20 30 x 40\ncpu0 1 1 1\n";
    assert_eq!(get_system_cpu_usage(text), Some(100));
    assert_eq!(get_system_cpu_usage("cpu\n"), Some(0));
    assert_eq!(get_system_cpu_usage("\n5 5"), Some(0));
}

#[test]
fn system_cpu_without_lines_fails() {
    assert_eq!(get_system_cpu_usage(""), None);
}
