use city3d_stac::memory::{parse_status_value_kb, MemorySnapshot};
use city3d_stac::memory::{log_interval, logging_flag};

fn reference(rss: u64, hwm: u64) -> String {
    format!("rss={:.1}MB peak={:.1}MB", rss as f64 / 1024.0, hwm as f64 / 1024.0)
}

#[test]
fn format_megabytes_matches_float_formatting() {
    for kb in [0u64, 1, 51, 52, 100, 256, 768, 1024, 1075, 1126, 1536, 123_456, 9_999_999, 1 << 40] {
        let snap = MemorySnapshot { rss_kb: kb, hwm_kb: kb * 3 };
        assert_eq!(snap.format_megabytes(), reference(kb, kb * 3), "kb = {kb}");
    }
}

#[test]
fn format_megabytes_exact_values() {
    let snap = MemorySnapshot { rss_kb: 1024, hwm_kb: 2560 };
    assert_eq!(snap.format_megabytes(), "rss=1.0MB peak=2.5MB");
}

#[test]
fn parse_status_reads_the_value_after_the_key() {
    let status = "Name:\tcity3dstac\nVmHWM:\t  20480 kB\nVmRSS:\t   10240 kB\n";
    assert_eq!(parse_status_value_kb(status, "VmRSS:"), Some(10240));
    assert_eq!(parse_status_value_kb(status, "VmHWM:"), Some(20480));
    assert_eq!(parse_status_value_kb(status, "VmSwap:"), None);
    assert_eq!(parse_status_value_kb("VmRSS:\n", "VmRSS:"), None);
    assert_eq!(parse_status_value_kb("VmRSS: abc kB", "VmRSS:"), None);
    assert_eq!(parse_status_value_kb("VmRSS: 1 kB\nVmRSS: 2 kB", "VmRSS:"), Some(1));
}

#[test]
fn memory_logging_settings() {
    for on in ["1", "true", "TRUE", "yes", "YES"] {
        assert!(logging_flag(Some(on)));
    }
    assert!(!logging_flag(Some("no")));
    assert!(!logging_flag(Some("True")));
    assert!(!logging_flag(None));
    assert_eq!(log_interval(Some("250"), 1000), 250);
    assert_eq!(log_interval(Some("0"), 1000), 1000);
    assert_eq!(log_interval(Some("x"), 1000), 1000);
    assert_eq!(log_interval(None, 1000), 1000);
}
