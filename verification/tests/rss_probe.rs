use linreg::rss::{parse_rss_kb, rss_report_kb};

#[test]
fn typical_status_text() {
    let text = b"Name:\tbench\nVmSize:\t   10000 kB\nVmRSS:\t    2228 kB\nVmSwap:\t      0 kB\n";
    assert_eq!(parse_rss_kb(&text.to_vec()), Some(2228));
}

#[test]
fn marker_absent() {
    let text = b"Name:\tbench\nVmSize:\t   10000 kB\nVmSwap:\t      0 kB\n";
    assert_eq!(parse_rss_kb(&text.to_vec()), None);
}

#[test]
fn empty_input() {
    assert_eq!(parse_rss_kb(&Vec::new()), None);
}

#[test]
fn field_not_numeric() {
    let text = b"VmRSS:\tabc kB\n";
    assert_eq!(parse_rss_kb(&text.to_vec()), None);
}

#[test]
fn second_field_missing() {
    assert_eq!(parse_rss_kb(&b"VmRSS:\n".to_vec()), None);
    assert_eq!(parse_rss_kb(&b"VmRSS:   \n".to_vec()), None);
}

#[test]
fn first_marker_line_decides() {
    let text = b"VmRSS:\t 7 kB\nVmRSS:\t 9 kB\n";
    assert_eq!(parse_rss_kb(&text.to_vec()), Some(7));
}

#[test]
fn first_marker_line_decides_even_unparsable() {
    let text = b"VmRSS:\t bad kB\nVmRSS:\t 9 kB\n";
    assert_eq!(parse_rss_kb(&text.to_vec()), None);
}

#[test]
fn marker_must_start_the_line() {
    let text = b" VmRSS:\t 5 kB\n";
    assert_eq!(parse_rss_kb(&text.to_vec()), None);
}

#[test]
fn marker_glued_to_number() {
    let text = b"VmRSS:2228 kB\n";
    assert_eq!(parse_rss_kb(&text.to_vec()), None);
}

#[test]
fn value_at_and_above_the_limit() {
    let max = b"VmRSS: 18446744073709551615 kB\n";
    assert_eq!(parse_rss_kb(&max.to_vec()), Some(u64::MAX));
    let over = b"VmRSS: 18446744073709551616 kB\n";
    assert_eq!(parse_rss_kb(&over.to_vec()), None);
}

#[test]
fn crlf_line_ending() {
    let text = b"Name:\tbench\r\nVmRSS:\t 123 kB\r\n";
    assert_eq!(parse_rss_kb(&text.to_vec()), Some(123));
}

#[test]
fn no_trailing_newline() {
    let text = b"VmRSS: 55 kB";
    assert_eq!(parse_rss_kb(&text.to_vec()), Some(55));
}

#[test]
fn unavailable_probe_reports_zero() {
    assert_eq!(rss_report_kb(None), 0);
    assert_eq!(rss_report_kb(Some(2228)), 2228);
}
