use bastion::addr::{format_address, IpAddress};
use bastion::net_guard::{GuardError, GuardedRequest, RequestPlan, ShieldClient};

fn v4(a: u8, b: u8, c: u8, d: u8) -> IpAddress {
    IpAddress::V4 { a, b, c, d }
}

fn v6(s: [u16; 8]) -> IpAddress {
    IpAddress::V6 {
        s0: s[0],
        s1: s[1],
        s2: s[2],
        s3: s[3],
        s4: s[4],
        s5: s[5],
        s6: s[6],
        s7: s[7],
    }
}

#[test]
fn test_is_private_ip() {
    let shield = ShieldClient::builder().build();

    assert!(shield.is_private_ip(v4(127, 0, 0, 1)));
    assert!(shield.is_private_ip(v4(192, 168, 1, 1)));
    assert!(shield.is_private_ip(v6([0, 0, 0, 0, 0, 0, 0, 1])));
    assert!(!shield.is_private_ip(v4(8, 8, 8, 8)));
}

#[test]
fn test_prepare_safe_request() {
    let shield = ShieldClient::builder().build();

    // localhost is not allowlisted: a fresh resolution is demanded,
    // and a resolution to 127.0.0.1 is denied.
    match shield.plan_request("http://localhost") {
        Ok(RequestPlan::MustResolve(host)) => {
            assert_eq!(host, "localhost");
            let res = shield.pin_request("http://localhost", &host, &vec![v4(127, 0, 0, 1)]);
            assert!(matches!(
                res,
                Err(GuardError::InternalAddressDenied(IpAddress::V4 { a: 127, b: 0, c: 0, d: 1 }))
            ));
        }
        other => panic!("expected MustResolve, got {:?}", other),
    }

    // the allowlisted client bypasses resolution entirely
    let shield_with_allow = ShieldClient::builder().allow_endpoint("localhost").build();
    match shield_with_allow.plan_request("http://localhost") {
        Ok(RequestPlan::Trusted(url)) => assert_eq!(url, "http://localhost/"),
        other => panic!("expected Trusted, got {:?}", other),
    }
}

#[test]
fn test_classifier_ranges() {
    let shield = ShieldClient::builder().build();
    assert!(shield.is_private_ip(v4(10, 1, 2, 3)));
    assert!(shield.is_private_ip(v4(172, 16, 0, 1)));
    assert!(!shield.is_private_ip(v4(172, 32, 0, 1)));
    assert!(shield.is_private_ip(v4(169, 254, 9, 9)));
    assert!(shield.is_private_ip(v4(255, 255, 255, 255)));
    assert!(shield.is_private_ip(v4(192, 0, 2, 7)));
    assert!(shield.is_private_ip(v4(0, 0, 0, 0)));
    assert!(shield.is_private_ip(v6([0, 0, 0, 0, 0, 0, 0, 0])));
    assert!(shield.is_private_ip(v6([0xfc00, 0, 0, 0, 0, 0, 0, 1])));
    assert!(shield.is_private_ip(v6([0xfe80, 0, 0, 0, 0, 0, 0, 1])));
    assert!(!shield.is_private_ip(v6([0x2001, 0x4860, 0x4860, 0, 0, 0, 0, 0x8888])));
}

#[test]
fn test_fail_closed_on_any_internal_answer() {
    let shield = ShieldClient::builder().build();
    // the first answer is routable, the second is internal: the whole
    // hostname is denied for this call
    let addrs = vec![v4(8, 8, 8, 8), v4(192, 168, 1, 1)];
    let res = shield.pin_request("http://example.com", "example.com", &addrs);
    assert!(matches!(
        res,
        Err(GuardError::InternalAddressDenied(IpAddress::V4 { a: 192, b: 168, c: 1, d: 1 }))
    ));
}

#[test]
fn test_malformed_input() {
    let shield = ShieldClient::builder().build();
    assert!(matches!(shield.plan_request("not a url"), Err(GuardError::MalformedInput)));
    // parseable, but no host component
    assert!(matches!(shield.plan_request("data:text/plain,x"), Err(GuardError::MalformedInput)));
}

#[test]
fn test_resolution_failure_on_empty_answer() {
    let shield = ShieldClient::builder().build();
    let res = shield.pin_request("http://example.com", "example.com", &Vec::new());
    assert!(matches!(res, Err(GuardError::ResolutionFailure)));
}

#[test]
fn test_pin_rewrites_url_and_keeps_host() {
    let shield = ShieldClient::builder().build();
    let addrs = vec![v4(93, 184, 216, 34), v4(93, 184, 216, 35)];
    match shield.pin_request("http://example.com/path?q=1", "example.com", &addrs) {
        Ok(GuardedRequest { url, original_host }) => {
            // pinned to the first address in resolution order
            assert_eq!(url, "http://93.184.216.34/path?q=1");
            assert_eq!(original_host.as_deref(), Some("example.com"));
        }
        other => panic!("expected a pinned request, got {:?}", other),
    }
}

#[test]
fn test_format_address() {
    assert_eq!(format_address(&v4(8, 8, 8, 8)), "8.8.8.8");
    assert_eq!(format_address(&v4(203, 0, 113, 254)), "203.0.113.254");
    assert_eq!(
        format_address(&v6([0x2001, 0x4860, 0x4860, 0, 0, 0, 0, 0x8888])),
        "[2001:4860:4860:0:0:0:0:8888]"
    );
}

#[test]
fn test_repeated_calls_re_resolve() {
    let shield = ShieldClient::builder().build();
    // every call yields MustResolve again: no earlier answer is reused
    for _ in 0..2 {
        match shield.plan_request("http://example.com") {
            Ok(RequestPlan::MustResolve(host)) => assert_eq!(host, "example.com"),
            other => panic!("expected MustResolve, got {:?}", other),
        }
    }
    // a denial in one call does not taint the next call's own answers
    let denied = shield.pin_request("http://example.com", "example.com", &vec![v4(10, 0, 0, 1)]);
    assert!(denied.is_err());
    let ok = shield.pin_request("http://example.com", "example.com", &vec![v4(8, 8, 8, 8)]);
    assert!(ok.is_ok());
}
