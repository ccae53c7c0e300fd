use eam::config::{parse_exchange_intervals, CliArgs, Config};

fn config_with(intervals: Vec<&str>, exchanges: Vec<&str>, default: u64) -> Config {
    Config::from_args(CliArgs {
        exchanges: exchanges.into_iter().map(str::to_owned).collect(),
        interval: default,
        exchange_intervals: intervals.into_iter().map(str::to_owned).collect(),
        log_level: "info".to_owned(),
        env_file: None,
    })
}

#[test]
fn override_parsing_skips_invalid_entries() {
    let pairs = parse_exchange_intervals(&vec![
        "binance:60".to_owned(),
        "okx:120".to_owned(),
        "broken".to_owned(),
        "a:b:c".to_owned(),
        "kraken:notanumber".to_owned(),
        "bybit:0".to_owned(),
    ]);
    assert_eq!(
        pairs,
        vec![
            ("binance".to_owned(), 60),
            ("okx".to_owned(), 120),
            ("bybit".to_owned(), 0),
        ]
    );
}

#[test]
fn polling_interval_prefers_the_override() {
    let cfg = config_with(vec!["binance:60", "okx:120"], vec![], 300);
    assert_eq!(cfg.get_polling_interval("binance"), 60);
    assert_eq!(cfg.get_polling_interval("okx"), 120);
    assert_eq!(cfg.get_polling_interval("kraken"), 300);
}

#[test]
fn repeated_overrides_keep_the_last_value() {
    let cfg = config_with(vec!["binance:60", "binance:90"], vec![], 300);
    assert_eq!(cfg.get_polling_interval("binance"), 90);
}

#[test]
fn empty_allow_list_monitors_all_exchanges() {
    let cfg = config_with(vec![], vec![], 300);
    assert!(cfg.should_monitor_exchange("Binance"));
    assert!(cfg.should_monitor_exchange("anything"));
}

#[test]
fn allow_list_restricts_monitoring() {
    let cfg = config_with(vec![], vec!["Binance", "OKX"], 300);
    assert!(cfg.should_monitor_exchange("Binance"));
    assert!(cfg.should_monitor_exchange("OKX"));
    assert!(!cfg.should_monitor_exchange("Kraken"));
    assert!(!cfg.should_monitor_exchange("binance"));
}
