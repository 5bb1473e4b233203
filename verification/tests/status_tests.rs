//! Tests for the status prober: parsing the composite command's output
//! and folding consecutive samples into reports.

use nexashell::ssh::SshError;
use nexashell::status::{parse_status_output, StatusTracker};

#[test]
fn parses_a_full_probe_response() {
    let out = "12345 6789\n8000000000 2000000000\n100000000 45000000 45%\n123456 654321\n";
    let s = parse_status_output(out).unwrap();
    assert_eq!(s.cpu_total, 12345);
    assert_eq!(s.cpu_idle, 6789);
    assert_eq!(s.mem_total, 8000000000);
    assert_eq!(s.mem_used, 2000000000);
    assert_eq!(s.disk_pct, 45);
    assert_eq!(s.net_rx, 123456);
    assert_eq!(s.net_tx, 654321);
}

#[test]
fn tolerates_blank_lines_and_whitespace() {
    let out = "\n  10 5  \n\n 100 40 \n 1000 300 30% \n 7 8 \n\n";
    let s = parse_status_output(out).unwrap();
    assert_eq!((s.cpu_total, s.cpu_idle), (10, 5));
    assert_eq!((s.mem_total, s.mem_used), (100, 40));
    assert_eq!(s.disk_pct, 30);
    assert_eq!((s.net_rx, s.net_tx), (7, 8));
}

#[test]
fn short_responses_are_rejected_with_line_count() {
    let e = parse_status_output("1 2\n3 4\n").unwrap_err();
    match e {
        SshError::OperationFailed(m) => {
            assert_eq!(m, "Invalid status output format (lines: 2)");
        }
        _ => panic!("OperationFailed expected"),
    }
}

#[test]
fn malformed_sections_fall_back_to_defaults() {
    // a cpu line with one number, a memory line with zero total, a disk
    // line with a word for the percentage, a net line with three numbers
    let out = "999\n0 0\n1 2 garbage\nx y z\n";
    let s = parse_status_output(out).unwrap();
    assert_eq!((s.cpu_total, s.cpu_idle), (0, 0));
    assert_eq!((s.mem_total, s.mem_used), (1, 0));
    assert_eq!(s.disk_pct, 0);
    assert_eq!((s.net_rx, s.net_tx), (0, 0));
}

#[test]
fn disk_percentage_is_capped() {
    let out = "1 1\n10 5\n1 2 250%\n0 0\n";
    let s = parse_status_output(out).unwrap();
    assert_eq!(s.disk_pct, 100);
}

#[test]
fn first_observation_reports_zero_cpu_and_rates() {
    let out = "1000 800\n100 50\n1 1 10%\n5000 6000\n";
    let s = parse_status_output(out).unwrap();
    let mut tracker = StatusTracker::new();
    let r = tracker.observe(s, 12, 10_000);
    assert_eq!(r.cpu_usage, 0);
    assert_eq!(r.mem_usage, 50);
    assert_eq!((r.mem_total, r.mem_used), (100, 50));
    assert_eq!(r.disk_usage, 10);
    assert_eq!((r.net_down, r.net_up), (0, 0));
    assert_eq!(r.latency, 12);
}

#[test]
fn second_observation_uses_the_deltas() {
    let mut tracker = StatusTracker::new();
    let s1 = parse_status_output("1000 800\n100 50\n1 1 10%\n1000 2000\n").unwrap();
    tracker.observe(s1, 10, 10_000);
    // 1000 more jiffies, 600 of them idle: 40% busy; 5000 more bytes
    // received in one second: 5000 B/s down; 1000 sent: 1000 B/s up.
    let s2 = parse_status_output("2000 1400\n100 80\n1 1 10%\n6000 3000\n").unwrap();
    let r = tracker.observe(s2, 11, 11_000);
    assert_eq!(r.cpu_usage, 40);
    assert_eq!(r.mem_usage, 80);
    assert_eq!(r.net_down, 5000);
    assert_eq!(r.net_up, 1000);
    assert_eq!(r.latency, 11);
}

#[test]
fn counters_that_go_backwards_count_as_zero() {
    let mut tracker = StatusTracker::new();
    let s1 = parse_status_output("2000 1000\n10 5\n1 1 0%\n9000 9000\n").unwrap();
    tracker.observe(s1, 1, 1_000);
    let s2 = parse_status_output("1500 900\n10 5\n1 1 0%\n100 100\n").unwrap();
    let r = tracker.observe(s2, 1, 2_000);
    assert_eq!(r.cpu_usage, 0);
    assert_eq!((r.net_down, r.net_up), (0, 0));
}

#[test]
fn status_command_names_every_section() {
    let cmd = nexashell::status::status_command();
    assert!(cmd.contains("/proc/stat"));
    assert!(cmd.contains("free -b"));
    assert!(cmd.contains("df /"));
    assert!(cmd.contains("/proc/net/dev"));
}
