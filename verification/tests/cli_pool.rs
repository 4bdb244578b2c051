use malkuth::cli::ProxySpec;
use malkuth::pool::assign_ports;

#[test]
fn parse_proxy_spec() {
    let s = ProxySpec::parse("3000:3000-3999").unwrap();
    assert_eq!(s.public_port, 3000);
    assert_eq!(s.range_lo, 3000);
    assert_eq!(s.range_hi, 3999);
    let ports: Vec<u16> = s.backend_ports().into_iter().take(5).collect();
    assert_eq!(ports, vec![3001, 3002, 3003, 3004, 3005]);
}

#[test]
fn parse_rejects_bad() {
    assert!(ProxySpec::parse("3000").is_err());
    assert!(ProxySpec::parse("3000:4000-3999").is_err());
}

#[test]
fn assign_ports_skips_public() {
    let m = assign_ports((3000..=3005).collect(), 3, 3000);
    assert_eq!(m.len(), 3);
    assert_eq!(m[&0], 3001);
    assert_eq!(m[&2], 3003);
}

#[test]
fn parse_error_messages_name_the_bad_part() {
    assert_eq!(
        ProxySpec::parse("3000").unwrap_err(),
        "--proxy must look like PUBLIC:LO-HI (got `3000`)"
    );
    assert_eq!(ProxySpec::parse("x:1-2").unwrap_err(), "invalid public port `x`");
    assert_eq!(
        ProxySpec::parse("1:2").unwrap_err(),
        "backend range must look like LO-HI (got `2`)"
    );
    assert_eq!(ProxySpec::parse("1:a-2").unwrap_err(), "invalid range lo `a`");
    assert_eq!(ProxySpec::parse("1:2-70000").unwrap_err(), "invalid range hi `70000`");
    assert_eq!(ProxySpec::parse("3000:4000-3999").unwrap_err(), "range hi 3999 < lo 4000");
}

#[test]
fn parse_accepts_plus_sign_like_std() {
    let s = ProxySpec::parse("+80:+1-65535").unwrap();
    assert_eq!((s.public_port, s.range_lo, s.range_hi), (80, 1, 65535));
    assert!(ProxySpec::parse(":1-2").is_err());
    assert!(ProxySpec::parse("1:-2").is_err());
}

#[test]
fn backend_ports_skip_public_and_cover_full_range() {
    let s = ProxySpec { public_port: 65535, range_lo: 65533, range_hi: 65535 };
    assert_eq!(s.backend_ports(), vec![65533, 65534]);
    let inverted = ProxySpec { public_port: 1, range_lo: 5, range_hi: 4 };
    assert!(inverted.backend_ports().is_empty());
}

#[test]
fn assign_ports_runs_out_of_ports() {
    let m = assign_ports(vec![10, 11, 10, 12], 9, 10);
    assert_eq!(m.len(), 2);
    assert_eq!(m[&0], 11);
    assert_eq!(m[&1], 12);
    assert!(assign_ports(vec![1, 2], 0, 5).is_empty());
}

#[test]
fn proxy_spec_text_round_trips_at_the_edges() {
    for (p, lo, hi) in [(0u16, 0u16, 0u16), (65535, 0, 65535), (80, 7, 7), (3000, 3001, 3005)] {
        let text = format!("{p}:{lo}-{hi}");
        let s = ProxySpec::parse(&text).unwrap();
        assert_eq!(s, ProxySpec { public_port: p, range_lo: lo, range_hi: hi });
    }
}
