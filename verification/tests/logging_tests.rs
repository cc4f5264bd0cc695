use comms_dht::logging::{log_config_sample, log_if_error_fmt, ApplicationType, LogLevel, LogLine};
use comms_dht::text::fill;

#[test]
fn log_if_error() {
    let err = Result::<(), _>::Err("What a shame");
    let (opt, line) = comms_dht::logging::log_if_error(LogLevel::Warn, "$crate", "Error: {}", err);
    assert!(opt.is_none());
    assert_eq!(
        line,
        Some(LogLine {
            level: LogLevel::Warn,
            target: "$crate".to_string(),
            message: "Error: What a shame".to_string(),
        })
    );

    let (opt, line) = comms_dht::logging::log_if_error(LogLevel::Trace, "$crate", "Error: {}", err);
    assert!(opt.is_none());
    assert_eq!(line.unwrap().level, LogLevel::Trace);

    let (opt, line) = comms_dht::logging::log_if_error(
        LogLevel::Trace,
        "$crate",
        "Error: {}",
        Result::<_, &str>::Ok("answer"),
    );
    assert_eq!(opt, Some("answer"));
    assert!(line.is_none());
}

#[test]
fn log_if_error_fmt_keeps_the_message_as_it_is() {
    let (opt, line) = log_if_error_fmt(
        LogLevel::Debug,
        "docs",
        "Error sending reply - custom: this is logged",
        Result::<(), ()>::Err(()),
    );
    assert_eq!(opt, None);
    let line = line.unwrap();
    assert_eq!(line.level, LogLevel::Debug);
    assert_eq!(line.target, "docs");
    assert_eq!(line.message, "Error sending reply - custom: this is logged");

    let (opt, line) = log_if_error_fmt(LogLevel::Debug, "docs", "unused", Result::<u8, ()>::Ok(7));
    assert_eq!(opt, Some(7));
    assert!(line.is_none());
}

#[test]
fn fill_replaces_the_first_placeholder_only() {
    assert_eq!(fill("Error: {}", "What a shame"), "Error: What a shame");
    assert_eq!(fill("{} and {}", "x"), "x and {}");
    assert_eq!(fill("no placeholder", "x"), "no placeholder");
    assert_eq!(fill("", "x"), "");
    assert_eq!(fill("{", "x"), "{");
    assert_eq!(fill("}{", "x"), "}{");
    assert_eq!(fill("a{}", ""), "a");
    assert_eq!(fill("é{}ü", "ß"), "éßü");
}

#[test]
fn every_application_has_its_sample() {
    assert_eq!(log_config_sample(ApplicationType::BaseNode), "log4rs_sample_base_node.yml");
    assert_eq!(log_config_sample(ApplicationType::ConsoleWallet), "log4rs_sample_wallet.yml");
    assert_eq!(log_config_sample(ApplicationType::MiningNode), "log4rs_sample_mining_node.yml");
    assert_eq!(log_config_sample(ApplicationType::MergeMiningProxy), "log4rs_sample_proxy.yml");
    assert_eq!(
        log_config_sample(ApplicationType::StratumTranscoder),
        "log4rs_sample_transcoder.yml"
    );
    assert_eq!(
        log_config_sample(ApplicationType::ValidatorNode),
        "log4rs_sample_validator_node.yml"
    );
    assert_eq!(log_config_sample(ApplicationType::Collectibles), "log4rs_collectibles.yml");
}
