use proctree::cli::{parse_args, ArgError, Config};
use proctree::report::{report_line, usage_line};

fn args(a: &[&str]) -> Vec<String> {
    a.iter().map(|s| s.to_string()).collect()
}

#[test]
fn one_argument_is_a_usage_error() {
    assert_eq!(parse_args(&args(&["prog"])), Err(ArgError::Usage));
    assert_eq!(parse_args(&args(&["prog", "12"])), Err(ArgError::Usage));
    assert_eq!(parse_args(&args(&[])), Err(ArgError::Usage));
}

#[test]
fn non_integer_interval_is_refused() {
    assert_eq!(
        parse_args(&args(&["prog", "12", "soon"])),
        Err(ArgError::InvalidInterval)
    );
    assert_eq!(
        parse_args(&args(&["prog", "12", "-1"])),
        Err(ArgError::InvalidInterval)
    );
}

#[test]
fn non_integer_pid_is_refused() {
    assert_eq!(
        parse_args(&args(&["prog", "abc", "1"])),
        Err(ArgError::InvalidPid)
    );
}

#[test]
fn valid_arguments_give_config() {
    assert_eq!(
        parse_args(&args(&["prog", "-4", "2", "extra"])),
        Ok(Config {
            parent_pid: -4,
            interval: 2
        })
    );
}

#[test]
fn report_line_has_fixed_layout() {
    assert_eq!(
        report_line(42, 1024, 500),
        "Total PID: 42,  Memory: 1024 KB CPU 5.00"
    );
    assert_eq!(report_line(-7, 0, 7), "Total PID: -7,  Memory: 0 KB CPU 0.07");
    assert_eq!(
        report_line(i32::MIN, u64::MAX, 12345),
        format!("Total PID: {},  Memory: {} KB CPU 123.45", i32::MIN, u64::MAX)
    );
}

#[test]
fn usage_line_names_arguments() {
    assert_eq!(usage_line("mon"), "Usage: mon <parent_pid> <interval>");
}
