use subscan::config::{concurrency_budget, get_strategy, name_server, IpStrategy, NameServer};
use subscan::scan::{query_name, ScanError};

#[test]
fn strategy_names() {
    assert_eq!(get_strategy("both"), IpStrategy::Ipv4AndIpv6);
    assert_eq!(get_strategy("6"), IpStrategy::Ipv6Only);
    assert_eq!(get_strategy("4"), IpStrategy::Ipv4Only);
    assert_eq!(get_strategy("6f"), IpStrategy::Ipv6thenIpv4);
    assert_eq!(get_strategy("4f"), IpStrategy::Ipv4thenIpv6);
    assert_eq!(get_strategy("other"), IpStrategy::Ipv4AndIpv6);
    assert_eq!(get_strategy(""), IpStrategy::Ipv4AndIpv6);
}

#[test]
fn name_server_selection() {
    assert!(matches!(name_server(None), NameServer::Google));
    assert!(matches!(name_server(Some("google")), NameServer::Google));
    assert!(matches!(name_server(Some("cloudflare")), NameServer::Cloudflare));
    assert!(matches!(name_server(Some("quad9")), NameServer::Quad9));
    match name_server(Some("1.1.1.1:53")) {
        NameServer::Address(a) => assert_eq!(a, "1.1.1.1:53"),
        other => panic!("unexpected {:?}", other),
    }
}

#[test]
fn budget_defaults_to_one_and_refuses_zero() {
    assert_eq!(concurrency_budget(None), Ok(1));
    assert_eq!(concurrency_budget(Some(8)), Ok(8));
    assert_eq!(concurrency_budget(Some(0)), Err(ScanError::ZeroBudget));
}

#[test]
fn query_name_joins_word_and_domain() {
    assert_eq!(query_name("www", "example.com"), "www.example.com");
    assert_eq!(query_name("", "example.com"), ".example.com");
}
