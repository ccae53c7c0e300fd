use eam::proxy::ProxyConfig;

#[test]
fn rotation_yields_every_port_once_before_repeating() {
    let mut cfg =
        ProxyConfig::from_parts("proxy.example".to_owned(), "8000-8003", None).unwrap();
    let mut seen = Vec::new();
    for _ in 0..4 {
        seen.push(cfg.next_proxy_url());
    }
    assert_eq!(
        seen,
        vec![
            "http://proxy.example:8000".to_string(),
            "http://proxy.example:8001".to_string(),
            "http://proxy.example:8002".to_string(),
            "http://proxy.example:8003".to_string(),
        ]
    );
    // The cursor wraps: the next call reuses the first port.
    assert_eq!(cfg.next_proxy_url(), "http://proxy.example:8000".to_string());
}

#[test]
fn random_url_stays_in_range_and_keeps_cursor() {
    let mut cfg = ProxyConfig::from_parts("p".to_owned(), "9000-9009", None).unwrap();
    for _ in 0..50 {
        let url = cfg.random_proxy_url();
        let port: u16 = url.rsplit(':').next().unwrap().parse().unwrap();
        assert!((9000..=9009).contains(&port));
    }
    // The cursor was never advanced.
    assert_eq!(cfg.next_proxy_url(), "http://p:9000".to_string());
}

#[test]
fn system_proxy_takes_precedence() {
    let mut cfg = ProxyConfig::from_parts(
        "p".to_owned(),
        "9000-9009",
        Some("http://fixed:3128".to_owned()),
    )
    .unwrap();
    assert_eq!(cfg.select_next(), "http://fixed:3128".to_string());
    assert_eq!(cfg.select_random(), "http://fixed:3128".to_string());
    // Ranged rotation was never touched.
    assert_eq!(cfg.next_proxy_url(), "http://p:9000".to_string());
}

#[test]
fn select_next_rotates_without_system_proxy() {
    let mut cfg = ProxyConfig::from_parts("p".to_owned(), "1-2", None).unwrap();
    assert_eq!(cfg.select_next(), "http://p:1".to_string());
    assert_eq!(cfg.select_next(), "http://p:2".to_string());
    assert_eq!(cfg.select_next(), "http://p:1".to_string());
}

#[test]
fn invalid_port_ranges_are_rejected() {
    assert!(ProxyConfig::from_parts("p".to_owned(), "8000", None).is_none());
    assert!(ProxyConfig::from_parts("p".to_owned(), "8000-8000", None).is_none());
    assert!(ProxyConfig::from_parts("p".to_owned(), "8001-8000", None).is_none());
    assert!(ProxyConfig::from_parts("p".to_owned(), "a-b", None).is_none());
    assert!(ProxyConfig::from_parts("p".to_owned(), "1-2-3", None).is_none());
    assert!(ProxyConfig::from_parts("p".to_owned(), "1-70000", None).is_none());
    assert!(ProxyConfig::from_parts("p".to_owned(), "", None).is_none());
}

#[test]
fn clone_keeps_settings_and_cursor() {
    let mut cfg = ProxyConfig::from_parts("h".to_owned(), "10-12", None).unwrap();
    cfg.next_proxy_url();
    let mut copy = cfg.clone();
    assert_eq!(copy.next_proxy_url(), "http://h:11".to_string());
    assert_eq!(cfg.next_proxy_url(), "http://h:11".to_string());
}
