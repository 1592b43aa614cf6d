//! The configuration of the proxy.

pub mod ini_file;
pub mod settings;

use std::sync::Arc;
use vstd::prelude::*;
use crate::addr::IpAddr;
use crate::config::ini_file::{
    all_views, document_value, get_parser, value_at, values_at, ConfigDocument, ConfigError,
    ConfigSection, DocumentMap, SectionMap, TryFromConfig,
};
use crate::config::settings::{BindSettings, ConnectionSettings, Seconds, TlsConnectionSettings};
use crate::connection::{
    possible_destinations_value, Destination, DestinationView, PossibleDestinations,
    PossibleDestinationsView,
};
use crate::listeners::tcp_rp::SimpleTcpHandlerConfig;
use crate::listeners::tls_http_rp::{host_route, HostSearchView, TlsRpHandlerConfig};
use crate::server::ServerSettings;
use crate::services::load_balancer::LoadBalancerConfig;
use crate::services::ssh_tarpit::SshTarpitConfig;
use crate::services::InternalService;
use crate::text::{bounded_value, parse_u16};
use crate::text_map::{
    distinct_keys, entries_map, has_key, lemma_entry, lemma_first_entry, TextMap,
};
use crate::utils::logging::{opt_text, LogLevel, LoggerConfig};

verus! {

/// A configuration under construction.
pub struct ConfigBuilder {
    pub config_file_path: Option<String>,
    pub server_settings: ServerSettings,
    pub connection_settings: ConnectionSettings,
    pub bind_addresses: Vec<IpAddr>,
    pub tls_rp_dest_provider: TextMap<PossibleDestinations>,
    pub fallback_tls_destination_port: Destination,
    pub tls_rp_listen_port: Vec<u16>,
    pub conn_tls_ch_max: usize,
    pub tcp_rp_dest_provider: Vec<(u16, PossibleDestinations)>,
    pub ssh_tarpit_max_connections: usize,
    pub ssh_tarpit_banner_repeat_time: Seconds,
    pub load_balancer_addrs: Vec<IpAddr>,
}

/// The configuration of the server. A part that is missing is not run.
pub struct Config {
    pub bind_settings: Option<BindSettings>,
    pub server_settings: Option<ServerSettings>,
    pub tcp_rp_config: Option<SimpleTcpHandlerConfig>,
    pub tls_rp_config: Option<TlsRpHandlerConfig>,
    pub load_balancer_config: Option<LoadBalancerConfig>,
    pub ssh_tarpit_config: Option<SshTarpitConfig>,
}

/// The hosts and their destinations, as values.
pub open spec fn hosts(m: Map<Seq<char>, PossibleDestinations>) -> Map<
    Seq<char>,
    PossibleDestinationsView,
> {
    m.map_values(|p: PossibleDestinations| p@)
}

/// The forwarded ports and their destinations, as values.
pub open spec fn ports(list: Seq<(u16, PossibleDestinations)>) -> Seq<
    (u16, PossibleDestinationsView),
> {
    list.map_values(|e: (u16, PossibleDestinations)| (e.0, e.1@))
}

/// The possible destinations that a text writes, or else the given one and no other.
pub open spec fn destinations_or(
    text: Option<Seq<char>>,
    otherwise: DestinationView,
    test_build: bool,
) -> PossibleDestinationsView {
    let only = PossibleDestinationsView { destination: otherwise, else_destination: None };
    match text {
        Some(t) => match PossibleDestinations::config_value(t, test_build) {
            Some(possible) => possible,
            None => only,
        },
        None => only,
    }
}

/// The destinations of the hosts of a section.
pub open spec fn section_hosts(
    section: SectionMap,
    fallback: DestinationView,
    test_build: bool,
) -> Map<Seq<char>, PossibleDestinationsView> {
    section.map_values(|text: Option<Seq<char>>| destinations_or(text, fallback, test_build))
}

/// The port that a key of a section of forwarded ports writes.
pub open spec fn source_port(key: Seq<char>) -> Option<nat> {
    bounded_value(key, u16::MAX as nat)
}

/// Every key of a section is a port.
pub open spec fn keys_are_ports(section: SectionMap) -> bool {
    forall|key: Seq<char>| #[trigger] section.contains_key(key) ==> source_port(key) is Some
}

/// The port and the destinations of a key of a section of forwarded ports. Without destinations
/// that can be read, the connection goes to the same port.
pub open spec fn forwarded_port(section: SectionMap, key: Seq<char>, test_build: bool) -> (
    u16,
    PossibleDestinationsView,
) {
    let port = source_port(key)->0 as u16;
    (port, destinations_or(section[key], DestinationView::PortOnly(port), test_build))
}

/// `list` holds the ports of a section in the order of `keys`, which has each key once.
pub open spec fn lists_section(
    section: SectionMap,
    keys: Seq<Seq<char>>,
    list: Seq<(u16, PossibleDestinationsView)>,
    test_build: bool,
) -> bool {
    &&& keys.no_duplicates()
    &&& keys.to_set() == section.dom()
    &&& list == keys.map_values(|key: Seq<char>| forwarded_port(section, key, test_build))
}

/// `list` holds the ports of a section, each key once, in some order.
pub open spec fn holds_section(
    section: SectionMap,
    list: Seq<(u16, PossibleDestinationsView)>,
    test_build: bool,
) -> bool {
    exists|keys: Seq<Seq<char>>| lists_section(section, keys, list, test_build)
}

fn read_destinations(text: Option<String>, otherwise: Destination, test_build: bool) -> (r:
    PossibleDestinations)
    ensures
        r@ == destinations_or(opt_text(text), otherwise@, test_build),
{
    match text {
        Some(t) => match PossibleDestinations::try_from_config(t, test_build) {
            Ok(possible) => possible,
            Err(_) => PossibleDestinations::without_else(otherwise),
        },
        None => PossibleDestinations::without_else(otherwise),
    }
}

/// Adds the hosts of a section to the ones that are known.
fn add_hosts(
    known: &mut TextMap<PossibleDestinations>,
    section: ConfigSection,
    fallback: &Destination,
    test_build: bool,
)
    ensures
        hosts(final(known)@) == hosts(old(known)@).union_prefer_right(
            section_hosts(section@, fallback@, test_build),
        ),
{
    let ghost start = hosts(known@);
    let mut rest = section.into_entries();
    let ghost all = rest@;
    proof {
        assert(section_hosts(
            entries_map(all.skip(all.len() as int)).map_values(|o: Option<String>| opt_text(o)),
            fallback@,
            test_build,
        ) =~= Map::<Seq<char>, PossibleDestinationsView>::empty());
        assert(start.union_prefer_right(
            Map::<Seq<char>, PossibleDestinationsView>::empty(),
        ) =~= start);
    }
    while rest.len() > 0
        invariant
            rest.len() <= all.len(),
            rest@ == all.take(rest.len() as int),
            distinct_keys(all),
            hosts(known@) == start.union_prefer_right(
                section_hosts(
                    entries_map(all.skip(rest.len() as int)).map_values(
                        |o: Option<String>| opt_text(o),
                    ),
                    fallback@,
                    test_build,
                ),
            ),
        decreases rest.len(),
    {
        let ghost n = rest.len() as int;
        let ghost before = hosts(known@);
        let (host, text) = rest.pop().unwrap();
        let possible = read_destinations(text, fallback.clone(), test_build);
        known.insert(host, possible);
        proof {
            let tail = all.skip(n - 1);
            assert forall|i: int, j: int| 0 <= i < j < tail.len() implies (#[trigger] tail[i]).0@
                != (#[trigger] tail[j]).0@ by {
                assert(tail[i] == all[i + n - 1]);
                assert(tail[j] == all[j + n - 1]);
            }
            lemma_first_entry(tail);
            assert(tail.skip(1) =~= all.skip(n));
            assert(hosts(known@) =~= before.insert(host@, possible@));
            assert(hosts(known@) =~= start.union_prefer_right(
                section_hosts(
                    entries_map(tail).map_values(|o: Option<String>| opt_text(o)),
                    fallback@,
                    test_build,
                ),
            ));
        }
    }
    assert(all.skip(0) =~= all);
}

/// The ports of a section, each key once. Every key has to be a port.
fn section_ports(section: ConfigSection, test_build: bool) -> (r: Result<
    Vec<(u16, PossibleDestinations)>,
    ConfigError,
>)
    ensures
        match r {
            Ok(list) => {
                &&& keys_are_ports(section@)
                &&& holds_section(section@, ports(list@), test_build)
            },
            Err(e) => e == ConfigError::InvalidSourcePort && !keys_are_ports(section@),
        },
{
    let mut entries = section.into_entries();
    let ghost all = entries@;
    let ghost texts = section@;
    let ghost keys = all.map_values(|e: (String, Option<String>)| e.0@);
    let mut list: Vec<(u16, PossibleDestinations)> = Vec::new();
    proof {
        assert forall|i: int| 0 <= i < all.len() implies texts.contains_key(#[trigger] keys[i])
            && texts[keys[i]] == opt_text(all[i].1) by {
            lemma_entry(all, i);
        }
        assert(ports(list@) =~= Seq::<(u16, PossibleDestinationsView)>::empty());
    }
    let mut i: usize = 0;
    while i < entries.len()
        invariant
            i <= entries.len(),
            entries@ == all,
            keys == all.map_values(|e: (String, Option<String>)| e.0@),
            forall|j: int|
                0 <= j < all.len() ==> texts.contains_key(#[trigger] keys[j]) && texts[keys[j]]
                    == opt_text(all[j].1),
            texts == section@,
            forall|j: int| 0 <= j < i ==> source_port(#[trigger] keys[j]) is Some,
            list.len() == i,
            forall|j: int|
                0 <= j < i ==> #[trigger] ports(list@)[j] == forwarded_port(
                    texts,
                    keys[j],
                    test_build,
                ),
        decreases entries.len() - i,
    {
        assert(keys[i as int] == all[i as int].0@);
        match parse_u16(entries[i].0.as_str()) {
            Some(port) => {
                let text: Option<String> = match &entries[i].1 {
                    Some(t) => Some(t.clone()),
                    None => None,
                };
                let possible = read_destinations(text, Destination::with_port(port), test_build);
                let ghost before = list@;
                list.push((port, possible));
                proof {
                    assert(opt_text(text) == opt_text(all[i as int].1));
                    assert(ports(list@) =~= ports(before).push((port, possible@)));
                }
            },
            None => {
                assert(section@.contains_key(keys[i as int]));
                return Err(ConfigError::InvalidSourcePort);
            },
        }
        i += 1;
    }
    proof {
        assert forall|key: Seq<char>| #[trigger] section@.contains_key(key) implies source_port(
            key,
        ) is Some && keys.contains(key) by {
            let j = choose|j: int| has_key(all, j, key);
            assert(keys[j] == key);
        }
        assert forall|a: int, b: int| 0 <= a < keys.len() && 0 <= b < keys.len() && a
            != b implies keys[a] != keys[b] by {
            if a < b {
                assert(all[a].0@ != all[b].0@);
            } else {
                assert(all[b].0@ != all[a].0@);
            }
        }
        assert(keys.to_set() =~= section@.dom());
        assert(ports(list@) =~= keys.map_values(
            |key: Seq<char>| forwarded_port(section@, key, test_build),
        ));
        assert(lists_section(section@, keys, ports(list@), test_build));
        assert(holds_section(section@, ports(list@), test_build));
    }
    Ok(list)
}

/// What stops a configuration file from being taken.
pub enum ConfigFault {
    /// The main section is missing.
    MainSection,
    /// A list of addresses cannot be read.
    Addresses,
    /// A key of the forwarded ports is not a port.
    SourcePort,
}

/// The first fault of a configuration file.
pub open spec fn config_fault(document: DocumentMap, test_build: bool) -> Option<ConfigFault> {
    let main = document["rusty-valve"@];
    let tcp = document["tcp-rp-ports"@];
    if !document.contains_key("rusty-valve"@) {
        Some(ConfigFault::MainSection)
    } else if values_at::<IpAddr>(main, "bind-addresses"@, test_build) is None || values_at::<
        IpAddr,
    >(main, "destination-addresses"@, test_build) is None {
        Some(ConfigFault::Addresses)
    } else if document.contains_key("tcp-rp-ports"@) && !keys_are_ports(tcp) {
        Some(ConfigFault::SourcePort)
    } else {
        None
    }
}

/// `value`, or `otherwise` where there is none.
pub open spec fn or_else<T>(value: Option<T>, otherwise: T) -> T {
    match value {
        Some(v) => v,
        None => otherwise,
    }
}

impl ConfigBuilder {
    /// `after` is `self` with what a configuration file without fault says.
    pub open spec fn configured_by(
        self,
        document: DocumentMap,
        after: Self,
        test_build: bool,
    ) -> bool {
        let main = document["rusty-valve"@];
        let tls = document["tls-rp-ports"@];
        let tcp = document["tcp-rp-ports"@];
        let tarpit = document["ssh-tarpit"@];
        let fallback = or_else(
            value_at::<Destination>(main, "fallback-tls-destination-port"@, test_build),
            self.fallback_tls_destination_port@,
        );
        &&& after.config_file_path == self.config_file_path
        &&& after.server_settings == self.server_settings
        &&& after.connection_settings == self.connection_settings
        &&& after.conn_tls_ch_max == self.conn_tls_ch_max
        &&& Some(after.bind_addresses@) == values_at::<IpAddr>(main, "bind-addresses"@, test_build)
        &&& Some(after.load_balancer_addrs@) == values_at::<IpAddr>(
            main,
            "destination-addresses"@,
            test_build,
        )
        &&& if document.contains_key("tls-rp-ports"@) {
            &&& after.fallback_tls_destination_port@ == fallback
            &&& after.tls_rp_listen_port@ == or_else(
                values_at::<u16>(main, "tls-rp-listen-port"@, test_build),
                self.tls_rp_listen_port@,
            )
            &&& hosts(after.tls_rp_dest_provider@) == hosts(
                self.tls_rp_dest_provider@,
            ).union_prefer_right(section_hosts(tls, fallback, test_build))
        } else {
            &&& after.fallback_tls_destination_port == self.fallback_tls_destination_port
            &&& after.tls_rp_listen_port == self.tls_rp_listen_port
            &&& after.tls_rp_dest_provider == self.tls_rp_dest_provider
        }
        &&& if document.contains_key("tcp-rp-ports"@) {
            exists|added: Seq<(u16, PossibleDestinationsView)>| #[trigger]
                holds_section(tcp, added, test_build) && ports(after.tcp_rp_dest_provider@)
                    == ports(self.tcp_rp_dest_provider@) + added
        } else {
            after.tcp_rp_dest_provider == self.tcp_rp_dest_provider
        }
        &&& if document.contains_key("ssh-tarpit"@) {
            &&& after.ssh_tarpit_max_connections == or_else(
                value_at::<usize>(tarpit, "max-connections"@, test_build),
                0,
            )
            &&& after.ssh_tarpit_banner_repeat_time == or_else(
                value_at::<Seconds>(tarpit, "banner-repeat-time"@, test_build),
                self.ssh_tarpit_banner_repeat_time,
            )
        } else {
            &&& after.ssh_tarpit_max_connections == self.ssh_tarpit_max_connections
            &&& after.ssh_tarpit_banner_repeat_time == self.ssh_tarpit_banner_repeat_time
        }
    }
}

impl LoggerConfig {
    /// `after` is `self` with what a configuration file says of the log.
    pub open spec fn configured_by(
        self,
        document: DocumentMap,
        after: Self,
        test_build: bool,
    ) -> bool {
        let log = document["logger"@];
        if document.contains_key("logger"@) {
            &&& opt_text(after.log_path) == value_at::<String>(log, "log-file"@, test_build)
            &&& after.stdout_log == value_at::<bool>(log, "print-log"@, test_build)
            &&& after.print_level == or_else(
                value_at::<LogLevel>(log, "print-level"@, test_build),
                self.print_level,
            )
            &&& after.logfile_level == or_else(
                value_at::<LogLevel>(log, "logfile-level"@, test_build),
                self.logfile_level,
            )
        } else {
            after == self
        }
    }

    fn read_section(self, section: ConfigSection, test_build: bool) -> (r: Self)
        ensures
            opt_text(r.log_path) == value_at::<String>(section@, "log-file"@, test_build),
            r.stdout_log == value_at::<bool>(section@, "print-log"@, test_build),
            r.print_level == or_else(
                value_at::<LogLevel>(section@, "print-level"@, test_build),
                self.print_level,
            ),
            r.logfile_level == or_else(
                value_at::<LogLevel>(section@, "logfile-level"@, test_build),
                self.logfile_level,
            ),
    {
        proof {
            reveal_strlit("log-file");
            reveal_strlit("print-log");
            reveal_strlit("print-level");
            reveal_strlit("logfile-level");
            assert("log-file"@.len() == 8);
            assert("print-log"@.len() == 9);
            assert("print-level"@.len() == 11);
            assert("logfile-level"@.len() == 13);
        }
        let mut section = section;
        let log_path = section.take_opt_value::<String>("log-file", test_build);
        let stdout_log = section.take_opt_value::<bool>("print-log", test_build);
        let print_level = match section.take_opt_value::<LogLevel>("print-level", test_build) {
            Some(level) => level,
            None => self.print_level,
        };
        let logfile_level = match section.take_opt_value::<LogLevel>("logfile-level", test_build) {
            Some(level) => level,
            None => self.logfile_level,
        };
        LoggerConfig { print_level, logfile_level, stdout_log, log_path }
    }
}

impl ConfigBuilder {
    /// What taking over a configuration file comes to.
    pub open spec fn document_outcome(
        self,
        log_config: LoggerConfig,
        document: DocumentMap,
        r: Result<(Self, LoggerConfig), ConfigError>,
        test_build: bool,
    ) -> bool {
        match r {
            Ok((builder, log)) => {
                &&& config_fault(document, test_build) is None
                &&& self.configured_by(document, builder, test_build)
                &&& log_config.configured_by(document, log, test_build)
            },
            Err(ConfigError::SectionNotFound(name)) => {
                &&& config_fault(document, test_build) == Some(ConfigFault::MainSection)
                &&& name@ == "rusty-valve"@
            },
            Err(ConfigError::InvalidValue) => config_fault(document, test_build) == Some(
                ConfigFault::Addresses,
            ),
            Err(ConfigError::InvalidSourcePort) => config_fault(document, test_build) == Some(
                ConfigFault::SourcePort,
            ),
            Err(_) => false,
        }
    }
}

proof fn lemma_names()
    ensures
        "rusty-valve"@ != "tls-rp-ports"@,
        "rusty-valve"@ != "tcp-rp-ports"@,
        "rusty-valve"@ != "ssh-tarpit"@,
        "rusty-valve"@ != "logger"@,
        "tls-rp-ports"@ != "tcp-rp-ports"@,
        "tls-rp-ports"@ != "ssh-tarpit"@,
        "tls-rp-ports"@ != "logger"@,
        "tcp-rp-ports"@ != "ssh-tarpit"@,
        "tcp-rp-ports"@ != "logger"@,
        "ssh-tarpit"@ != "logger"@,
        "bind-addresses"@ != "destination-addresses"@,
        "bind-addresses"@ != "fallback-tls-destination-port"@,
        "bind-addresses"@ != "tls-rp-listen-port"@,
        "destination-addresses"@ != "fallback-tls-destination-port"@,
        "destination-addresses"@ != "tls-rp-listen-port"@,
        "fallback-tls-destination-port"@ != "tls-rp-listen-port"@,
        "max-connections"@ != "banner-repeat-time"@,
{
    reveal_strlit("rusty-valve");
    reveal_strlit("tls-rp-ports");
    reveal_strlit("tcp-rp-ports");
    reveal_strlit("ssh-tarpit");
    reveal_strlit("logger");
    reveal_strlit("bind-addresses");
    reveal_strlit("destination-addresses");
    reveal_strlit("fallback-tls-destination-port");
    reveal_strlit("tls-rp-listen-port");
    reveal_strlit("max-connections");
    reveal_strlit("banner-repeat-time");
    assert("rusty-valve"@.len() == 11);
    assert("tls-rp-ports"@.len() == 12);
    assert("tcp-rp-ports"@.len() == 12);
    assert("tls-rp-ports"@[1] == 'l');
    assert("tcp-rp-ports"@[1] == 'c');
    assert("ssh-tarpit"@.len() == 10);
    assert("logger"@.len() == 6);
    assert("bind-addresses"@.len() == 14);
    assert("destination-addresses"@.len() == 21);
    assert("fallback-tls-destination-port"@.len() == 29);
    assert("tls-rp-listen-port"@.len() == 18);
    assert("max-connections"@.len() == 15);
    assert("banner-repeat-time"@.len() == 18);
}

impl ConfigBuilder {
    /// Takes over what a configuration file says. `log_config` is what holds of the log where the
    /// file does not speak of it, and `test_build` tells whether the service for tests is known.
    pub fn apply_document(
        self,
        document: ConfigDocument,
        log_config: LoggerConfig,
        test_build: bool,
    ) -> (r: Result<(Self, LoggerConfig), ConfigError>)
        ensures
            self.document_outcome(log_config, document@, r, test_build),
    {
        proof {
            lemma_names();
        }
        let mut document = document;
        let mut builder = self;
        let mut main = document.try_take_section("rusty-valve")?;
        builder.bind_addresses = main.take_multi_value::<IpAddr>("bind-addresses", test_build)?;
        builder.load_balancer_addrs = main.take_multi_value::<IpAddr>(
            "destination-addresses",
            test_build,
        )?;
        assert(all_views(builder.bind_addresses@) =~= builder.bind_addresses@);
        assert(all_views(builder.load_balancer_addrs@) =~= builder.load_balancer_addrs@);
        if let Some(section) = document.take_section("tls-rp-ports") {
            if let Some(v) = main.take_opt_value::<Destination>(
                "fallback-tls-destination-port",
                test_build,
            ) {
                builder.fallback_tls_destination_port = v;
            }
            if let Ok(v) = main.take_multi_value::<u16>("tls-rp-listen-port", test_build) {
                assert(all_views(v@) =~= v@);
                builder.tls_rp_listen_port = v;
            }
            let fallback = builder.fallback_tls_destination_port.clone();
            add_hosts(&mut builder.tls_rp_dest_provider, section, &fallback, test_build);
        }
        if let Some(section) = document.take_section("tcp-rp-ports") {
            let mut added = section_ports(section, test_build)?;
            let ghost before = builder.tcp_rp_dest_provider@;
            let ghost list = added@;
            builder.tcp_rp_dest_provider.append(&mut added);
            assert(ports(builder.tcp_rp_dest_provider@) =~= ports(before) + ports(list));
        }
        if let Some(section) = document.take_section("ssh-tarpit") {
            let mut section = section;
            builder.ssh_tarpit_max_connections = match section.take_opt_value::<usize>(
                "max-connections",
                test_build,
            ) {
                Some(n) => n,
                None => 0,
            };
            if let Some(time) = section.take_opt_value::<Seconds>(
                "banner-repeat-time",
                test_build,
            ) {
                builder.ssh_tarpit_banner_repeat_time = time;
            }
        }
        let log = match document.take_section("logger") {
            Some(section) => log_config.read_section(section, test_build),
            None => log_config,
        };
        Ok((builder, log))
    }
}

impl ConfigBuilder {
    /// What holds before anything is configured.
    pub open spec fn has_defaults(self) -> bool {
        &&& self.config_file_path is None
        &&& self.server_settings.forward_queue == 50
        &&& self.connection_settings.timeout.secs == 5
        &&& self.bind_addresses@ == Seq::<IpAddr>::empty()
        &&& self.tls_rp_dest_provider@ == Map::<Seq<char>, PossibleDestinations>::empty()
        &&& self.fallback_tls_destination_port@ == DestinationView::PortOnly(4443)
        &&& self.tls_rp_listen_port@ == seq![4080u16, 4443u16]
        &&& self.conn_tls_ch_max == 16358
        &&& self.tcp_rp_dest_provider@ == Seq::<(u16, PossibleDestinations)>::empty()
        &&& self.ssh_tarpit_max_connections == 0
        &&& self.ssh_tarpit_banner_repeat_time.secs == 10
        &&& self.load_balancer_addrs@ == Seq::<IpAddr>::empty()
    }
}

impl Default for ConfigBuilder {
    fn default() -> (r: Self)
        ensures
            r.has_defaults(),
    {
        ConfigBuilder {
            config_file_path: None,
            server_settings: ServerSettings { forward_queue: 50 },
            connection_settings: ConnectionSettings { timeout: Seconds { secs: 5 } },
            bind_addresses: Vec::new(),
            tls_rp_dest_provider: TextMap::new(),
            fallback_tls_destination_port: Destination::PortOnly(4443),
            tls_rp_listen_port: vec![4080, 4443],
            conn_tls_ch_max: 16358,
            tcp_rp_dest_provider: Vec::new(),
            ssh_tarpit_max_connections: 0,
            ssh_tarpit_banner_repeat_time: Seconds { secs: 10 },
            load_balancer_addrs: Vec::new(),
        }
    }
}

impl ConfigBuilder {
    /// Starts from the defaults.
    pub fn new() -> (r: Self)
        ensures
            r.has_defaults(),
    {
        Self::default()
    }

    /// Sets the path of the configuration file: the one that the command line gives, or in a debug
    /// build always the same.
    pub fn get_opts(self, config: Option<String>, debug_build: bool) -> (r: Self)
        ensures
            debug_build ==> opt_text(r.config_file_path) == Some("resources/config/config.ini"@),
            !debug_build ==> r.config_file_path == config,
            r == (ConfigBuilder { config_file_path: r.config_file_path, ..self }),
    {
        let mut builder = self;
        builder.config_file_path = if debug_build {
            Some("resources/config/config.ini".to_owned())
        } else {
            config
        };
        builder
    }

    /// Takes over the text of the configuration file. `log_config` is what holds of the log where
    /// the file does not speak of it, and `test_build` tells whether the service for tests is
    /// known.
    pub fn get_ini_config(self, text: String, log_config: LoggerConfig, test_build: bool) -> (r:
        Result<(Self, LoggerConfig), ConfigError>)
        ensures
            self.config_file_path is None ==> r == Err::<(Self, LoggerConfig), ConfigError>(
                ConfigError::PathNotSet,
            ),
            self.config_file_path is Some ==> match document_value(text@) {
                Ok(document) => self.document_outcome(log_config, document, r, test_build),
                Err(why) => r matches Err(ConfigError::Syntax(w)) && w@ == why,
            },
    {
        if self.config_file_path.is_none() {
            return Err(ConfigError::PathNotSet);
        }
        let parser = get_parser();
        assert(parser.comment_symbols@ =~= seq!['#']);
        assert(parser.delimiters@ =~= seq!['=']);
        match parser.read(text) {
            Ok(document) => self.apply_document(document, log_config, test_build),
            Err(e) => Err(e),
        }
    }

    pub fn set_defaults(self) -> (r: Self)
        ensures
            r == self,
    {
        self
    }

    /// The configuration of the server. A part without anything to do is left out; so is a tarpit
    /// that may hold no connection.
    pub fn build(self) -> (r: Config)
        ensures
            r.bind_settings matches Some(bind) && bind.bind_ip_addrs@ == self.bind_addresses@
                && bind.tls_rp_bind_port@ == self.tls_rp_listen_port@,
            r.server_settings == Some(self.server_settings),
            match r.load_balancer_config {
                Some(c) => c.addresses == self.load_balancer_addrs && c.addresses@.len() > 0,
                None => self.load_balancer_addrs@.len() == 0,
            },
            match r.tls_rp_config {
                Some(c) => {
                    &&& c.destination_provider == self.tls_rp_dest_provider
                    &&& c.destination_provider@ != Map::<Seq<char>, PossibleDestinations>::empty()
                    &&& c.connection_settings.connection_settings == self.connection_settings
                    &&& c.connection_settings.max_client_hello_size == self.conn_tls_ch_max
                },
                None => self.tls_rp_dest_provider@ == Map::<
                    Seq<char>,
                    PossibleDestinations,
                >::empty(),
            },
            match r.tcp_rp_config {
                Some(c) => {
                    &&& c.destination_provider == self.tcp_rp_dest_provider
                    &&& c.destination_provider@.len() > 0
                    &&& c.connection_settings == self.connection_settings
                },
                None => self.tcp_rp_dest_provider@.len() == 0,
            },
            match r.ssh_tarpit_config {
                Some(c) => {
                    &&& self.ssh_tarpit_max_connections != 0
                    &&& c.max_connections == self.ssh_tarpit_max_connections
                    &&& c.banner_repeat_time == self.ssh_tarpit_banner_repeat_time
                },
                None => self.ssh_tarpit_max_connections == 0,
            },
    {
        let load_balancer_config = if self.load_balancer_addrs.len() > 0 {
            Some(LoadBalancerConfig { addresses: self.load_balancer_addrs })
        } else {
            None
        };
        let tls_rp_config = if !self.tls_rp_dest_provider.is_empty() {
            Some(
                TlsRpHandlerConfig {
                    connection_settings: TlsConnectionSettings {
                        connection_settings: self.connection_settings,
                        max_client_hello_size: self.conn_tls_ch_max,
                    },
                    destination_provider: self.tls_rp_dest_provider,
                },
            )
        } else {
            None
        };
        let tcp_rp_config = if self.tcp_rp_dest_provider.len() > 0 {
            Some(
                SimpleTcpHandlerConfig {
                    connection_settings: self.connection_settings,
                    destination_provider: self.tcp_rp_dest_provider,
                },
            )
        } else {
            None
        };
        let ssh_tarpit_config = if self.ssh_tarpit_max_connections != 0 {
            Some(
                SshTarpitConfig {
                    max_connections: self.ssh_tarpit_max_connections,
                    banner_repeat_time: self.ssh_tarpit_banner_repeat_time,
                },
            )
        } else {
            None
        };
        Config {
            bind_settings: Some(
                BindSettings {
                    bind_ip_addrs: Arc::new(self.bind_addresses),
                    tls_rp_bind_port: Arc::new(self.tls_rp_listen_port),
                },
            ),
            server_settings: Some(self.server_settings),
            tcp_rp_config,
            tls_rp_config,
            load_balancer_config,
            ssh_tarpit_config,
        }
    }
}

/// A host that a configuration file lists is routed to the destination that stands with it, or to
/// the fallback where none stands there that can be read. Where no host was known before, one that
/// the file does not list is not routed.
pub proof fn listed_hosts_are_routed(
    before: ConfigBuilder,
    document: DocumentMap,
    after: ConfigBuilder,
    host: Seq<char>,
    test_build: bool,
)
    requires
        before.configured_by(document, after, test_build),
        document.contains_key("tls-rp-ports"@),
    ensures
        document["tls-rp-ports"@].contains_key(host) ==> host_route(
            after.tls_rp_dest_provider@,
            Some(host),
        ) == HostSearchView::Forward(
            InternalService::LoadBalancer,
            match document["tls-rp-ports"@][host] {
                Some(text) => match possible_destinations_value(text, test_build) {
                    Ok(possible) => possible.destination,
                    Err(_) => after.fallback_tls_destination_port@,
                },
                None => after.fallback_tls_destination_port@,
            },
        ),
        before.tls_rp_dest_provider@ == Map::<Seq<char>, PossibleDestinations>::empty()
            && !document["tls-rp-ports"@].contains_key(host) ==> host_route(
            after.tls_rp_dest_provider@,
            Some(host),
        ) == HostSearchView::Drop,
{
    let section = document["tls-rp-ports"@];
    let fallback = after.fallback_tls_destination_port@;
    let routes = hosts(before.tls_rp_dest_provider@).union_prefer_right(
        section_hosts(section, fallback, test_build),
    );
    assert(hosts(after.tls_rp_dest_provider@) == routes);
    assert(routes.contains_key(host) <==> after.tls_rp_dest_provider@.contains_key(host));
    if section.contains_key(host) {
        assert(section_hosts(section, fallback, test_build).contains_key(host));
        assert(routes[host] == destinations_or(section[host], fallback, test_build));
        assert(hosts(after.tls_rp_dest_provider@)[host]
            == after.tls_rp_dest_provider@[host]@);
    } else if before.tls_rp_dest_provider@ == Map::<Seq<char>, PossibleDestinations>::empty() {
        assert(!hosts(before.tls_rp_dest_provider@).contains_key(host));
        assert(!section_hosts(section, fallback, test_build).contains_key(host));
    }
}

/// Every port that a configuration file lists is forwarded to the destinations that stand with it,
/// or to the same port where none stand there that can be read. Where no port was forwarded before,
/// no other port is.
pub proof fn listed_ports_are_forwarded(
    before: ConfigBuilder,
    document: DocumentMap,
    after: ConfigBuilder,
    key: Seq<char>,
    entry: (u16, PossibleDestinationsView),
    test_build: bool,
)
    requires
        before.configured_by(document, after, test_build),
        document.contains_key("tcp-rp-ports"@),
    ensures
        document["tcp-rp-ports"@].contains_key(key) ==> ports(
            after.tcp_rp_dest_provider@,
        ).contains(forwarded_port(document["tcp-rp-ports"@], key, test_build)),
        before.tcp_rp_dest_provider@.len() == 0 && ports(after.tcp_rp_dest_provider@).contains(
            entry,
        ) ==> exists|k: Seq<char>| #[trigger]
            document["tcp-rp-ports"@].contains_key(k) && entry == forwarded_port(
                document["tcp-rp-ports"@],
                k,
                test_build,
            ),
{
    let section = document["tcp-rp-ports"@];
    let known = ports(before.tcp_rp_dest_provider@);
    let all = ports(after.tcp_rp_dest_provider@);
    let added = choose|added: Seq<(u16, PossibleDestinationsView)>| #[trigger]
        holds_section(section, added, test_build) && all == known + added;
    let keys = choose|keys: Seq<Seq<char>>| lists_section(section, keys, added, test_build);
    if section.contains_key(key) {
        assert(keys.to_set().contains(key));
        let i = choose|i: int| 0 <= i < keys.len() && keys[i] == key;
        assert(added[i] == forwarded_port(section, key, test_build));
        assert(all[known.len() + i] == forwarded_port(section, key, test_build));
    }
    if before.tcp_rp_dest_provider@.len() == 0 && all.contains(entry) {
        let i = choose|i: int| 0 <= i < all.len() && all[i] == entry;
        assert(added[i] == entry);
        assert(keys.to_set().contains(keys[i]));
        assert(section.contains_key(keys[i]));
    }
}

} // verus!
