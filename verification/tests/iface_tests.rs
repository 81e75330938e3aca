use printscp::ifaces::{record_passes, select, EnumError, IfaceRecord, IpFamily};
use printscp::report::family_report_lines;

fn rec(name: &str, addr: &str, family: IpFamily, is_loopback: bool) -> IfaceRecord {
    IfaceRecord { name: name.to_string(), addr: addr.to_string(), family, is_loopback }
}

fn sample() -> Vec<IfaceRecord> {
    vec![
        rec("eth0", "10.0.0.5", IpFamily::V4, false),
        rec("lo", "127.0.0.1", IpFamily::V4, true),
        rec("eth0", "::1", IpFamily::V6, true),
    ]
}

#[test]
fn select_ipv4_without_loopback() {
    let out = select(Ok(sample()), IpFamily::V4, true).unwrap_or_else(|_| unreachable!());
    assert_eq!(out.len(), 1);
    assert_eq!(out[0].name, "eth0");
    assert_eq!(out[0].addr, "10.0.0.5");
    assert_eq!(out[0].family, IpFamily::V4);
    assert!(!out[0].is_loopback);
}

#[test]
fn select_ipv4_keeps_loopback_in_order() {
    let out = select(Ok(sample()), IpFamily::V4, false).unwrap_or_else(|_| unreachable!());
    assert_eq!(out.len(), 2);
    assert_eq!(out[0].addr, "10.0.0.5");
    assert_eq!(out[1].addr, "127.0.0.1");
}

#[test]
fn select_ipv6_finds_the_v6_record() {
    let out = select(Ok(sample()), IpFamily::V6, false).unwrap_or_else(|_| unreachable!());
    assert_eq!(out.len(), 1);
    assert_eq!(out[0].addr, "::1");
    let none = select(Ok(sample()), IpFamily::V6, true).unwrap_or_else(|_| unreachable!());
    assert_eq!(none.len(), 0);
}

#[test]
fn select_propagates_enumeration_failure() {
    let out = select(Err(EnumError), IpFamily::V4, true);
    assert!(matches!(out, Err(EnumError)));
}

#[test]
fn enumeration_failure_yields_zero_report_lines() {
    let failed: Result<Vec<IfaceRecord>, EnumError> = Err(EnumError);
    let lines = family_report_lines(&failed, IpFamily::V4, false, &".".to_string());
    assert_eq!(lines.len(), 0);
}

#[test]
fn record_filter_checks_family_and_loopback() {
    let a = rec("eth0", "10.0.0.5", IpFamily::V4, false);
    let b = rec("lo", "127.0.0.1", IpFamily::V4, true);
    assert!(record_passes(&a, IpFamily::V4, true));
    assert!(record_passes(&b, IpFamily::V4, false));
    assert!(!record_passes(&b, IpFamily::V4, true));
    assert!(!record_passes(&a, IpFamily::V6, false));
}

#[test]
fn report_lines_pair_address_with_path() {
    let ifaces = Ok(sample());
    let lines = family_report_lines(&ifaces, IpFamily::V4, false, &"/home/u/f.txt".to_string());
    assert_eq!(lines, vec!["10.0.0.5:/home/u/f.txt".to_string(), "127.0.0.1:/home/u/f.txt".to_string()]);
}
