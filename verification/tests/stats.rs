use sshfm::errors::ErrorKind;
use sshfm::stats::{process_stats, split_tokens};

const CPU_LINE: &str =
    "%Cpu(s):  3.1 us,  1.2 sy,  0.0 ni, 95.0 id,  0.4 wa,  0.0 hi,  0.2 si,  0.1 st";
const MEM_LINE: &str = "Mem:           15Gi       6.1Gi       4.2Gi       1.0Gi       5.2Gi       8.9Gi";
const DISK_LINE: &str = "/dev/sda1       234G   120G   102G  55% /";

#[test]
fn stats_are_summarized_field_by_field() {
    let stats = process_stats(CPU_LINE, MEM_LINE, DISK_LINE).expect("well-formed output");
    assert_eq!(
        stats.cpu_usage,
        "User: 3.1%, System: 1.2%, Idle: 95.0%, Steal: 0.1%"
    );
    assert_eq!(
        stats.memory_usage,
        "Total: 15Gi, Used: 6.1Gi, Free: 4.2Gi, Buffers/Cache: 5.2Gi"
    );
    assert_eq!(
        stats.disk_usage,
        "Filesystem: /dev/sda1, Total: 234G, Used: 120G, Available: 102G, Usage: 55%"
    );
}

#[test]
fn short_cpu_line_is_a_parse_error() {
    let e = process_stats("%Cpu(s): 3.1 us", MEM_LINE, DISK_LINE).unwrap_err();
    assert_eq!(e.kind, ErrorKind::Parse);
    assert_eq!(e.detail, "unexpected CPU usage format");
}

#[test]
fn short_memory_line_is_a_parse_error() {
    let e = process_stats(CPU_LINE, "Mem: 15Gi 6.1Gi", DISK_LINE).unwrap_err();
    assert_eq!(e.kind, ErrorKind::Parse);
    assert_eq!(e.detail, "unexpected memory usage format");
}

#[test]
fn short_disk_line_is_a_parse_error() {
    let e = process_stats(CPU_LINE, MEM_LINE, "/dev/sda1 234G").unwrap_err();
    assert_eq!(e.kind, ErrorKind::Parse);
    assert_eq!(e.detail, "unexpected disk usage format");
}

#[test]
fn empty_output_is_a_parse_error_not_a_crash() {
    let e = process_stats("", "", "").unwrap_err();
    assert_eq!(e.kind, ErrorKind::Parse);
}

#[test]
fn tokens_split_on_runs_of_whitespace() {
    let toks = split_tokens("  a\tbb   ccc\nd  ");
    assert_eq!(toks, vec!["a", "bb", "ccc", "d"]);
}

#[test]
fn tokenizing_whitespace_only_gives_no_tokens() {
    assert!(split_tokens("   \t\n  ").is_empty());
    assert!(split_tokens("").is_empty());
}
