use rusty_valve::addr::IpAddr;
use rusty_valve::config::ini_file::{
    document_from, get_parser, ConfigDocument, ConfigError, ConfigSection, InvalidValue,
    TryFromConfig,
};
use rusty_valve::config::settings::{ConnectionSettings, Seconds};
use rusty_valve::config::ConfigBuilder;
use rusty_valve::connection::{Destination, PossibleDestinations};
use rusty_valve::listeners::tls_http_rp::{route_host, HostSearch};
use rusty_valve::server::ServerSettings;
use rusty_valve::services::InternalService;
use rusty_valve::utils::logging::{LogLevel, LoggerConfig};

const FULL: &str = "
# what the proxy listens on
[rusty-valve]
bind-addresses = 0.0.0.0, [::]
destination-addresses = 10.0.0.1,10.0.0.2,
tls-rp-listen-port = 80,443
fallback-tls-destination-port = 8443

[tls-rp-ports]
example.com = 9443|ssh-tarpit
bare.example
broken.example = nonsense

[tcp-rp-ports]
2222 = 10.0.0.1:22
2223

[ssh-tarpit]
max-connections = 7
banner-repeat-time = 3

[logger]
log-file = /var/log/valve
print-log = true
print-level = debug
logfile-level = 2
";

fn builder() -> ConfigBuilder {
    ConfigBuilder::new().get_opts(Some("config.ini".to_string()), false)
}

fn log() -> LoggerConfig {
    LoggerConfig::with_environment(None, false)
}

fn read(text: &str) -> Result<(ConfigBuilder, LoggerConfig), ConfigError> {
    builder().get_ini_config(text.to_string(), log(), false)
}

fn fails(text: &str) -> ConfigError {
    match read(text) {
        Ok(_) => panic!("should not be taken: {}", text),
        Err(e) => e,
    }
}

#[test]
fn load_config_file() {
    assert!(get_parser().read(FULL.to_string()).is_ok());
}

#[test]
fn full_configuration() {
    let (builder, log) = read(FULL).unwrap();
    assert_eq!(builder.bind_addresses, vec![IpAddr::V4(0), IpAddr::V6(0)]);
    assert_eq!(
        builder.load_balancer_addrs,
        vec![IpAddr::V4(0x0a000001), IpAddr::V4(0x0a000002)]
    );
    assert_eq!(builder.tls_rp_listen_port, vec![80, 443]);
    assert_eq!(builder.fallback_tls_destination_port, Destination::PortOnly(8443));
    let hosts = &builder.tls_rp_dest_provider;
    assert_eq!(
        hosts.get("example.com"),
        Some(&PossibleDestinations::with_else(
            Destination::PortOnly(9443),
            Destination::InternalService(InternalService::SshTarpit)
        ))
    );
    // without a value, or with one that cannot be read, there is the fallback
    let fallback = PossibleDestinations::without_else(Destination::PortOnly(8443));
    assert_eq!(hosts.get("bare.example"), Some(&fallback));
    assert_eq!(hosts.get("broken.example"), Some(&fallback));
    assert_eq!(hosts.get("other.example"), None);
    let mut ports = builder.tcp_rp_dest_provider.clone();
    ports.sort_by_key(|e| e.0);
    assert_eq!(
        ports,
        vec![
            (2222, PossibleDestinations::from_str("10.0.0.1:22", false).unwrap()),
            (2223, PossibleDestinations::from_str("2223", false).unwrap()),
        ]
    );
    assert_eq!(builder.ssh_tarpit_max_connections, 7);
    assert_eq!(builder.ssh_tarpit_banner_repeat_time, Seconds { secs: 3 });
    assert_eq!(log.log_path, Some("/var/log/valve".to_string()));
    assert_eq!(log.stdout_log, Some(true));
    assert_eq!(log.print_level, LogLevel::Debug);
    assert_eq!(log.logfile_level, LogLevel::Warn);
}

#[test]
fn defaults_stay_where_nothing_is_said() {
    let (builder, log) = read("[rusty-valve]\nx = y\n").unwrap();
    assert!(builder.bind_addresses.is_empty());
    assert_eq!(builder.tls_rp_listen_port, vec![4080, 4443]);
    assert_eq!(builder.fallback_tls_destination_port, Destination::PortOnly(4443));
    assert_eq!(builder.conn_tls_ch_max, 16358);
    assert_eq!(builder.server_settings, ServerSettings { forward_queue: 50 });
    assert_eq!(
        builder.connection_settings,
        ConnectionSettings { timeout: Seconds { secs: 5 } }
    );
    assert_eq!(builder.ssh_tarpit_max_connections, 0);
    assert_eq!(builder.ssh_tarpit_banner_repeat_time, Seconds { secs: 10 });
    assert_eq!(log.print_level, LogLevel::Info);
    assert_eq!(log.log_path, None);
    // a section of its own takes the number of connections back to zero
    let (builder, _) = read("[rusty-valve]\nx = y\n[ssh-tarpit]\nmax-connections = x\n").unwrap();
    assert_eq!(builder.ssh_tarpit_max_connections, 0);
    assert_eq!(builder.ssh_tarpit_banner_repeat_time, Seconds { secs: 10 });
}

#[test]
fn listen_ports_count_only_with_hosts() {
    let (builder, _) = read(
        "[rusty-valve]\ntls-rp-listen-port = 1\nfallback-tls-destination-port = 2\n",
    )
    .unwrap();
    assert_eq!(builder.tls_rp_listen_port, vec![4080, 4443]);
    assert_eq!(builder.fallback_tls_destination_port, Destination::PortOnly(4443));
    // a list that cannot be read leaves the defaults, one that is missing is empty
    let (builder, _) =
        read("[rusty-valve]\ntls-rp-listen-port = x\n[tls-rp-ports]\na\n").unwrap();
    assert_eq!(builder.tls_rp_listen_port, vec![4080, 4443]);
    let (builder, _) = read("[rusty-valve]\nx = y\n[tls-rp-ports]\na\n").unwrap();
    assert!(builder.tls_rp_listen_port.is_empty());
}

#[test]
fn faults_of_a_configuration() {
    assert_eq!(
        fails("[logger]\nprint-log = true\n"),
        ConfigError::SectionNotFound("rusty-valve".to_string())
    );
    assert_eq!(
        fails("[rusty-valve]\nbind-addresses = 1.2.3\n"),
        ConfigError::InvalidValue
    );
    assert_eq!(
        fails("[rusty-valve]\ndestination-addresses = ::1,,\n"),
        ConfigError::InvalidValue
    );
    assert_eq!(
        fails("[rusty-valve]\nx = y\n[tcp-rp-ports]\nhttp = 80\n"),
        ConfigError::InvalidSourcePort
    );
    assert!(matches!(fails("[rusty-valve\nx = y\n"), ConfigError::Syntax(_)));
    let without_path = ConfigBuilder::new().get_ini_config(FULL.to_string(), log(), false);
    assert!(matches!(without_path, Err(ConfigError::PathNotSet)));
}

#[test]
fn the_reader_knows_comments_and_delimiters() {
    let mut document = get_parser()
        .read("a = 1 # one\n[S]\nB: c = 2 ; two\n".to_string())
        .unwrap();
    let mut main = document.take_section("rusty-valve").unwrap();
    assert_eq!(main.take_opt_value::<String>("a", false), Some("1".to_string()));
    let mut section = document.take_section("s").unwrap();
    assert_eq!(section.take_opt_value::<String>("b: c", false), Some("2 ; two".to_string()));
    assert!(document.take_section("s").is_none());
}

#[test]
fn path_of_the_configuration() {
    let path = Some("x.ini".to_string());
    assert_eq!(ConfigBuilder::new().get_opts(path.clone(), false).config_file_path, path);
    assert_eq!(ConfigBuilder::new().get_opts(None, false).config_file_path, None);
    assert_eq!(
        ConfigBuilder::new().get_opts(path, true).config_file_path,
        Some("resources/config/config.ini".to_string())
    );
}

#[test]
fn parts_without_work_are_left_out() {
    let config = ConfigBuilder::new().set_defaults().build();
    assert!(config.load_balancer_config.is_none());
    assert!(config.tls_rp_config.is_none());
    assert!(config.tcp_rp_config.is_none());
    assert!(config.ssh_tarpit_config.is_none());
    assert!(config.bind_settings.is_some());
    assert_eq!(config.server_settings, Some(ServerSettings { forward_queue: 50 }));
}

#[test]
fn parts_of_a_full_configuration() {
    let (builder, _) = read(FULL).unwrap();
    let config = builder.build();
    let bind = config.bind_settings.unwrap();
    assert_eq!(*bind.bind_ip_addrs, vec![IpAddr::V4(0), IpAddr::V6(0)]);
    assert_eq!(*bind.tls_rp_bind_port, vec![80, 443]);
    let tls = config.tls_rp_config.unwrap();
    assert_eq!(tls.connection_settings.max_client_hello_size, 16358);
    assert_eq!(tls.connection_settings.connection_settings.timeout, Seconds { secs: 5 });
    assert!(tls.destination_provider.get("example.com").is_some());
    assert_eq!(config.tcp_rp_config.unwrap().destination_provider.len(), 2);
    assert_eq!(config.load_balancer_config.unwrap().addresses.len(), 2);
    let tarpit = config.ssh_tarpit_config.unwrap();
    assert_eq!(tarpit.max_connections, 7);
    assert_eq!(tarpit.banner_repeat_time, Seconds { secs: 3 });
}

#[test]
fn values_are_taken_once() {
    let mut section = ConfigSection::new();
    section.insert("a".to_string(), Some("1".to_string()));
    section.insert("b".to_string(), Some("x".to_string()));
    section.insert("c".to_string(), None);
    section.insert("d".to_string(), Some(" 1 ,2, 3,".to_string()));
    assert_eq!(section.take_value::<u16>("a", false), Ok(1));
    assert_eq!(
        section.take_value::<u16>("a", false),
        Err(ConfigError::ValueNotTaken("a".to_string()))
    );
    assert_eq!(
        section.take_value::<u16>("b", false),
        Err(ConfigError::ValueNotTaken("b".to_string()))
    );
    // the text is gone though it could not be read
    assert_eq!(section.take_opt_value::<String>("b", false), None);
    assert_eq!(section.take_multi_value::<u16>("c", false), Ok(vec![]));
    assert_eq!(section.take_multi_value::<u16>("d", false), Ok(vec![1, 2, 3]));
    assert_eq!(section.take_multi_value::<u16>("d", false), Ok(vec![]));
    section.insert("e".to_string(), Some("1,,2".to_string()));
    assert_eq!(section.take_multi_value::<u16>("e", false), Err(ConfigError::InvalidValue));
    assert!(section.into_entries().is_empty());
}

#[test]
fn sections_are_taken_or_changed() {
    let mut document = ConfigDocument::new();
    let mut section = ConfigSection::new();
    section.insert("k".to_string(), Some("v".to_string()));
    document.insert("s".to_string(), section);
    let changed = document.get_section("s", |mut section| {
        section.insert("l".to_string(), None);
        (section, Ok(()))
    });
    assert_eq!(changed, Ok(()));
    assert_eq!(
        document.get_section("t", |section| (section, Ok(()))),
        Err(ConfigError::SectionNotFound("t".to_string()))
    );
    assert_eq!(
        document.get_section("s", |section| (section, Err(ConfigError::InvalidValue))),
        Err(ConfigError::InvalidValue)
    );
    let mut entries = document.try_take_section("s").ok().unwrap().into_entries();
    entries.sort();
    assert_eq!(
        entries,
        vec![("k".to_string(), Some("v".to_string())), ("l".to_string(), None)]
    );
    assert!(matches!(
        document.try_take_section("s"),
        Err(ConfigError::SectionNotFound(name)) if name == "s"
    ));
}

#[test]
fn documents_from_lists() {
    let entry = |k: &str, v: &str| (k.to_string(), Some(v.to_string()));
    let mut document = document_from(vec![("s".to_string(), vec![entry("a", "1"), entry("b", "2")])]);
    let mut section = document.take_section("s").unwrap();
    assert_eq!(section.take_opt_value::<usize>("a", false), Some(1));
    assert_eq!(section.take_opt_value::<usize>("b", false), Some(2));
}

#[test]
fn values_of_every_type() {
    let text = |s: &str| s.to_string();
    assert_eq!(bool::try_from_config(text("true"), false), Ok(true));
    assert_eq!(bool::try_from_config(text("false"), false), Ok(false));
    assert_eq!(bool::try_from_config(text("True"), false), Err(InvalidValue {}));
    assert_eq!(IpAddr::try_from_config(text("[::1]"), false), Ok(IpAddr::V6(1)));
    assert_eq!(IpAddr::try_from_config(text("1.1.1"), false), Err(InvalidValue {}));
    assert_eq!(u16::try_from_config(text("65535"), false), Ok(65535));
    assert_eq!(u16::try_from_config(text("65536"), false), Err(InvalidValue {}));
    assert_eq!(u16::try_from_config(text("-1"), false), Err(InvalidValue {}));
    assert_eq!(usize::try_from_config(text("+12"), false), Ok(12));
    assert_eq!(usize::try_from_config(text(""), false), Err(InvalidValue {}));
    assert_eq!(usize::try_from_config(text("99999999999999999999"), false), Err(InvalidValue {}));
    assert_eq!(Seconds::try_from_config(text("10"), false), Ok(Seconds { secs: 10 }));
    assert_eq!(Seconds::try_from_config(text("1.5"), false), Err(InvalidValue {}));
    assert_eq!(String::try_from_config(text("/tmp"), false), Ok(text("/tmp")));
    assert_eq!(LogLevel::try_from_config(text("Warn"), false), Ok(LogLevel::Warn));
    assert_eq!(LogLevel::try_from_config(text("6"), false), Err(InvalidValue {}));
    assert_eq!(Destination::try_from_config(text("80"), false), Ok(Destination::PortOnly(80)));
    assert_eq!(Destination::try_from_config(text("x"), false), Err(InvalidValue {}));
    assert_eq!(PossibleDestinations::try_from_config(text("80|x"), false), Err(InvalidValue {}));
}

#[test]
fn configured_hosts_are_routed() {
    let (builder, _) = read(FULL).unwrap();
    let hosts = builder.build().tls_rp_config.unwrap().destination_provider;
    let port = |host: &str| match route_host(&hosts, Some(host.to_string())) {
        HostSearch::Forward(InternalService::LoadBalancer, Destination::PortOnly(port)) => {
            Some(port)
        }
        _ => None,
    };
    assert_eq!(port("example.com"), Some(9443));
    assert_eq!(port("bare.example"), Some(8443));
    assert_eq!(port("broken.example"), Some(8443));
    assert_eq!(port("other.example"), None);
}

#[test]
fn tarpit_is_left_out_without_connections() {
    let tarpit = |limit: usize| {
        let text = format!("[rusty-valve]\nx = y\n[ssh-tarpit]\nmax-connections = {}\n", limit);
        read(&text).unwrap().0.build().ssh_tarpit_config.map(|c| c.max_connections)
    };
    assert_eq!(tarpit(0), None);
    assert_eq!(tarpit(1), Some(1));
    assert_eq!(tarpit(10), Some(10));
    assert_eq!(tarpit(usize::MAX), Some(usize::MAX));
}

#[test]
fn the_service_for_tests_falls_back() {
    let text = "[rusty-valve]\nx = y\n[tls-rp-ports]\na = test-service\n";
    let destination = |test_build: bool| {
        let (builder, _) = builder().get_ini_config(text.to_string(), log(), test_build).unwrap();
        builder.tls_rp_dest_provider.get("a").unwrap().get_only_destination().clone()
    };
    assert_eq!(destination(false), Destination::PortOnly(4443));
    assert_eq!(destination(true), Destination::InternalService(InternalService::TestService));
}
