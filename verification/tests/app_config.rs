use uptime_checker::app::config::{parse_nameservers, Config, SocketAddress};
use uptime_checker::checker::ip_filter::IpAddress;
use uptime_checker::cliapp::{CliApp, Commands};
use uptime_checker::endpoint::listen_address;
use uptime_checker::logging::{
    log_style, reported, Level, LogFormat, LogStyle, LoggingConfig, Reported,
};
use uptime_checker::redis_client::{
    build_redis_client, read_watermark, write_watermark, ClientKind,
};

#[test]
fn defaults_hold_where_nothing_is_configured() {
    let config = Config::default();
    assert_eq!(
        config.metrics.statsd_addr,
        SocketAddress { ip: IpAddress::V4(0x7f000001), port: 8126 }
    );
    assert_eq!(config.checker_number, 0);
    assert_eq!(config.redis_host, "redis://127.0.0.1:6379");
    assert_eq!(config.webserver_port, 12345);
    assert_eq!(config.assertion_complexity, 100);
    assert_eq!(config.max_assertion_ops, 16);
}

#[test]
fn the_command_line_wins() {
    let app = |log_level, log_format| CliApp {
        config: None,
        log_level,
        log_format,
        command: Commands::Run,
    };
    let config = Config::default().with_command_line(&app(Some(Level::Trace), None));
    assert_eq!(config.log_level, Level::Trace);
    assert_eq!(config.log_format, LogFormat::Auto);
    let config = config.with_command_line(&app(None, Some(LogFormat::Json)));
    assert_eq!(config.log_level, Level::Trace);
    assert_eq!(config.log_format, LogFormat::Json);
    let logging = LoggingConfig::from_config(&config);
    assert_eq!(logging.log_level, Level::Trace);
    assert_eq!(logging.sentry_dsn, None);
    let threads = Config { thread_cpu_scale_factor: 3, ..Config::default() };
    assert_eq!(threads.worker_threads(8), 24);
}

#[test]
fn name_servers_are_listed_with_commas() {
    assert_eq!(parse_nameservers(&None), Ok(None));
    assert_eq!(parse_nameservers(&Some(String::new())), Ok(None));
    assert_eq!(
        parse_nameservers(&Some("8.8.8.8,8.8.4.4".to_owned())),
        Ok(Some(vec![IpAddress::V4(0x08080808), IpAddress::V4(0x08080404)]))
    );
    assert_eq!(
        parse_nameservers(&Some(" ::1 , 1.2.3.4".to_owned())),
        Ok(Some(vec![IpAddress::V6(1), IpAddress::V4(0x01020304)]))
    );
    assert_eq!(
        parse_nameservers(&Some("8.8.8.8,".to_owned())),
        Err("invalid IP address syntax".to_owned())
    );
}

#[test]
fn logs_are_written_as_asked_for() {
    assert_eq!(log_style(LogFormat::Auto, true), LogStyle::Compact);
    assert_eq!(log_style(LogFormat::Auto, false), LogStyle::Plain);
    assert_eq!(log_style(LogFormat::Pretty, false), LogStyle::Compact);
    assert_eq!(log_style(LogFormat::Simplified, true), LogStyle::Plain);
    assert_eq!(log_style(LogFormat::Json, true), LogStyle::Json);
    assert_eq!(reported(Level::Error), Reported::EventAndLog);
    assert_eq!(reported(Level::Warn), Reported::Log);
    assert_eq!(reported(Level::Info), Reported::Log);
    assert_eq!(reported(Level::Debug), Reported::Ignored);
    assert_eq!(Level::Off.verbosity(), 0);
    assert_eq!(Level::Trace.verbosity(), 5);
}

#[test]
fn watermarks_are_read_back() {
    for progress in [0, -1, i64::MAX, i64::MIN] {
        assert_eq!(read_watermark(&Some(write_watermark(progress))), Some(progress));
    }
    assert_eq!(read_watermark(&Some("soon".to_owned())), None);
    assert_eq!(read_watermark(&None), None);
}

#[test]
fn redis_clients_are_of_a_node_or_of_a_cluster() {
    let single = build_redis_client("redis://127.0.0.1:6379", false, 0, true).unwrap();
    assert!(matches!(single.get_client(), ClientKind::Single(_)));
    assert!(single.is_readonly());
    assert_eq!(single.connection_timeout_ms(), None);
    let cluster = build_redis_client("redis://127.0.0.1:6379", true, 30, false).unwrap();
    assert!(matches!(cluster.get_client(), ClientKind::Cluster(_)));
    assert!(!cluster.is_readonly());
    assert_eq!(cluster.connection_timeout_ms(), Some(30));
    assert!(build_redis_client("nowhere", false, 0, false).is_err());
    assert!(build_redis_client("nowhere", true, 0, false).is_err());
}

#[test]
fn the_server_listens_on_its_port() {
    assert_eq!(listen_address(81), "localhost:81");
}
