//! What a configuration file comes to.

use vstd::prelude::*;
use crate::addr::{ip_value, IpAddr};
use crate::config::ini_file::{
    document_from, document_value, get_parser, ini_sections, listed_values, value_at, values_at,
    ConfigDocument, ConfigError, ConfigSection, DocumentMap, InvalidValue, ParserSettings,
    TryFromConfig,
};
use crate::config::settings::Seconds;
use crate::config::{
    holds_section, hosts, keys_are_ports, lists_section, ports, section_hosts, source_port, Config,
    ConfigBuilder,
};
use crate::connection::{
    destination_value, possible_destinations_value, Destination, DestinationView,
    PossibleDestinations, PossibleDestinationsView,
};
use crate::text::{terminated_pieces, trimmed, unsigned_value, without_brackets};
use crate::text_map::{has_key, lemma_entry};
use crate::utils::logging::{level_value, LogLevel, LoggerConfig};

verus! {

/// A switch is "true" or "false", in small letters and without anything round it.
pub proof fn switches_are_true_or_false(text: Seq<char>, test_build: bool)
    ensures
        bool::config_value(text, test_build) == Some(true) <==> text == "true"@,
        bool::config_value(text, test_build) == Some(false) <==> text == "false"@,
{
    reveal_strlit("true");
    reveal_strlit("false");
    assert("true"@.len() == 4);
    assert("false"@.len() == 5);
}

/// A number is taken as it is written, up to the largest of its type. No larger one is taken.
pub proof fn numbers_are_taken_as_written(text: Seq<char>, test_build: bool)
    ensures
        match unsigned_value(text) {
            Some(n) => {
                &&& n <= 65535 ==> u16::config_value(text, test_build) == Some(n as u16)
                &&& n > 65535 ==> u16::config_value(text, test_build) is None
                &&& n <= usize::MAX ==> usize::config_value(text, test_build) == Some(n as usize)
                &&& n > usize::MAX ==> usize::config_value(text, test_build) is None
                &&& n <= u64::MAX ==> Seconds::config_value(text, test_build) == Some(
                    Seconds { secs: n as u64 },
                )
                &&& n > u64::MAX ==> Seconds::config_value(text, test_build) is None
            },
            None => {
                &&& u16::config_value(text, test_build) is None
                &&& usize::config_value(text, test_build) is None
                &&& Seconds::config_value(text, test_build) is None
            },
        },
{
}

/// An address is taken with square brackets or without, a path as it is, and destinations as they
/// are written in general.
pub proof fn other_values_are_taken(text: Seq<char>, test_build: bool)
    ensures
        IpAddr::config_value(text, test_build) == ip_value(without_brackets(text)),
        String::config_value(text, test_build) == Some(text),
        LogLevel::config_value(text, test_build) == level_value(text),
        match destination_value(text, test_build) {
            Ok(d) => Destination::config_value(text, test_build) == Some(d),
            Err(_) => Destination::config_value(text, test_build) is None,
        },
        match possible_destinations_value(text, test_build) {
            Ok(p) => PossibleDestinations::config_value(text, test_build) == Some(p),
            Err(_) => PossibleDestinations::config_value(text, test_build) is None,
        },
{
}

/// What is read of a text is the value that it writes, whatever the type.
pub proof fn values_are_read<T: TryFromConfig>(
    text: String,
    test_build: bool,
    r: Result<T, InvalidValue>,
)
    requires
        call_ensures(T::try_from_config, (text, test_build), r),
    ensures
        match r {
            Ok(v) => T::config_value(text@, test_build) == Some(v@),
            Err(_) => T::config_value(text@, test_build) is None,
        },
{
}

/// The values of a list are read in turn, each without the white space round it. One that cannot be
/// read spoils the list.
pub proof fn lists_are_read_in_turn<T: TryFromConfig>(
    list: Seq<Seq<char>>,
    item: Seq<char>,
    test_build: bool,
)
    ensures
        listed_values::<T>(Seq::empty(), test_build) == Some(Seq::<T::V>::empty()),
        listed_values::<T>(list.push(item), test_build) == match (
            listed_values::<T>(list, test_build),
            T::config_value(trimmed(item), test_build),
        ) {
            (Some(front), Some(v)) => Some(front.push(v)),
            _ => None,
        },
{
    let none = Seq::<Seq<char>>::empty();
    assert(Seq::new(none.len(), |i: int| T::config_value(trimmed(none[i]), test_build)->0)
        =~= Seq::<T::V>::empty());
    let all = list.push(item);
    assert(all[list.len() as int] == item);
    assert forall|i: int| 0 <= i < list.len() implies all[i] == #[trigger] list[i] by {}
    if listed_values::<T>(list, test_build) is Some && T::config_value(
        trimmed(item),
        test_build,
    ) is Some {
        assert forall|i: int| 0 <= i < all.len() implies T::config_value(
            trimmed(#[trigger] all[i]),
            test_build,
        ) is Some by {
            if i < list.len() {
                assert(all[i] == list[i]);
            }
        }
        assert(listed_values::<T>(all, test_build)->0 =~= listed_values::<T>(
            list,
            test_build,
        )->0.push(T::config_value(trimmed(item), test_build)->0));
    }
}

/// A key with a text has the value that the text writes, and as a list the values between its
/// commas. A key that is missing, or without a text, has no value, and its list is empty.
pub proof fn keys_have_the_values_of_their_texts<T: TryFromConfig>(
    section: Map<Seq<char>, Option<Seq<char>>>,
    key: Seq<char>,
    test_build: bool,
)
    ensures
        section.contains_key(key) && section[key] is Some ==> {
            let text = section[key]->0;
            &&& value_at::<T>(section, key, test_build) == T::config_value(text, test_build)
            &&& values_at::<T>(section, key, test_build) == listed_values::<T>(
                terminated_pieces(text, ','),
                test_build,
            )
        },
        !section.contains_key(key) || section[key] is None ==> {
            &&& value_at::<T>(section, key, test_build) is None
            &&& values_at::<T>(section, key, test_build) == Some(Seq::<T::V>::empty())
        },
{
}

/// What is set under a key can be taken out under it, once, and nothing else changes.
pub proof fn values_that_are_set_can_be_taken<T: TryFromConfig>(
    before: ConfigSection,
    key: String,
    value: Option<String>,
    set: ConfigSection,
    name: &str,
    test_build: bool,
    r: Option<T>,
    after: ConfigSection,
    other: Seq<char>,
)
    requires
        name@ == key@,
        exists|s: &mut ConfigSection|
            *s == before && *final(s) == set && #[trigger] call_ensures(
                ConfigSection::insert,
                (s, key, value),
                (),
            ),
        exists|s: &mut ConfigSection|
            *s == set && *final(s) == after && #[trigger] call_ensures(
                ConfigSection::take_opt_value::<T>,
                (s, name, test_build),
                r,
            ),
    ensures
        match value {
            Some(text) => match r {
                Some(v) => T::config_value(text@, test_build) == Some(v@),
                None => T::config_value(text@, test_build) is None,
            },
            None => r is None,
        },
        !after@.contains_key(key@),
        other != key@ ==> {
            &&& after@.contains_key(other) <==> before@.contains_key(other)
            &&& before@.contains_key(other) ==> after@[other] == before@[other]
        },
{
}

/// A value that has to be there is taken out in the same way, and it is an error that names the key
/// where there is none.
pub proof fn values_may_have_to_be_there<T: TryFromConfig>(
    before: ConfigSection,
    key: &str,
    test_build: bool,
    may: Option<T>,
    must: Result<T, ConfigError>,
    after: ConfigSection,
    after_must: ConfigSection,
)
    requires
        exists|s: &mut ConfigSection|
            *s == before && *final(s) == after && #[trigger] call_ensures(
                ConfigSection::take_opt_value::<T>,
                (s, key, test_build),
                may,
            ),
        exists|s: &mut ConfigSection|
            *s == before && *final(s) == after_must && #[trigger] call_ensures(
                ConfigSection::take_value::<T>,
                (s, key, test_build),
                must,
            ),
    ensures
        after_must@ == after@,
        may matches Some(v) ==> (must matches Ok(w) && w@ == v@),
        may is None ==> (must matches Err(ConfigError::ValueNotTaken(name)) && name@ == key@),
{
}

/// A list is taken out with all its values in order, or is an error as a whole.
pub proof fn lists_are_taken_whole<T: TryFromConfig>(
    before: ConfigSection,
    key: &str,
    test_build: bool,
    r: Result<Vec<T>, ConfigError>,
    after: ConfigSection,
    i: int,
)
    requires
        exists|s: &mut ConfigSection|
            *s == before && *final(s) == after && #[trigger] call_ensures(
                ConfigSection::take_multi_value::<T>,
                (s, key, test_build),
                r,
            ),
    ensures
        after@ == before@.remove(key@),
        r is Ok <==> values_at::<T>(before@, key@, test_build) is Some,
        r matches Err(e) ==> e == ConfigError::InvalidValue,
        r matches Ok(list) ==> {
            &&& list@.len() == values_at::<T>(before@, key@, test_build)->0.len()
            &&& 0 <= i < list@.len() ==> list@[i]@ == values_at::<T>(
                before@,
                key@,
                test_build,
            )->0[i]
        },
{
}

/// A section that is set can be taken out under its name, once, and nothing else changes. One that
/// has to be there and is not is an error that names it.
pub proof fn sections_that_are_set_can_be_taken(
    start: ConfigDocument,
    before: ConfigDocument,
    key: String,
    section: ConfigSection,
    set: ConfigDocument,
    name: &str,
    r: Option<ConfigSection>,
    after: ConfigDocument,
    must: Result<ConfigSection, ConfigError>,
    after_must: ConfigDocument,
    other: Seq<char>,
)
    requires
        call_ensures(ConfigDocument::new, (), start),
        exists|d: &mut ConfigDocument|
            *d == before && *final(d) == set && #[trigger] call_ensures(
                ConfigDocument::insert,
                (d, key, section),
                (),
            ),
        exists|d: &mut ConfigDocument|
            *d == set && *final(d) == after && #[trigger] call_ensures(
                ConfigDocument::take_section,
                (d, name),
                r,
            ),
        exists|d: &mut ConfigDocument|
            *d == set && *final(d) == after_must && #[trigger] call_ensures(
                ConfigDocument::try_take_section,
                (d, name),
                must,
            ),
    ensures
        !start@.contains_key(key@),
        name@ == key@ ==> {
            &&& r matches Some(s) && s@ == section@
            &&& must matches Ok(s) && s@ == section@
        },
        name@ != key@ && before@.contains_key(name@) ==> {
            &&& r matches Some(s) && s@ == before@[name@]
            &&& must matches Ok(s) && s@ == before@[name@]
        },
        name@ != key@ && !before@.contains_key(name@) ==> {
            &&& r is None
            &&& must matches Err(ConfigError::SectionNotFound(n)) && n@ == name@
        },
        !after@.contains_key(name@),
        after_must@ == after@,
        other != key@ && other != name@ ==> {
            &&& after@.contains_key(other) <==> before@.contains_key(other)
            &&& before@.contains_key(other) ==> after@[other] == before@[other]
        },
{
}

/// A section that is there is changed in place, and the outcome is that of the change. One that is
/// missing is an error that names it, and nothing changes.
pub proof fn sections_are_changed_in_place<
    F: FnOnce(ConfigSection) -> (ConfigSection, Result<(), ConfigError>),
>(
    before: ConfigDocument,
    name: &str,
    change: F,
    r: Result<(), ConfigError>,
    after: ConfigDocument,
    other: Seq<char>,
)
    requires
        exists|d: &mut ConfigDocument|
            *d == before && *final(d) == after && #[trigger] call_ensures(
                ConfigDocument::get_section::<F>,
                (d, name, change),
                r,
            ),
    ensures
        before@.contains_key(name@) ==> exists|old_one: ConfigSection, new_one: ConfigSection|
            {
                &&& #[trigger] change.ensures((old_one,), (new_one, r))
                &&& old_one@ == before@[name@]
                &&& after@.contains_key(name@)
                &&& after@[name@] == new_one@
            },
        !before@.contains_key(name@) ==> {
            &&& r matches Err(ConfigError::SectionNotFound(n)) && n@ == name@
            &&& !after@.contains_key(name@)
        },
        other != name@ ==> {
            &&& after@.contains_key(other) <==> before@.contains_key(other)
            &&& before@.contains_key(other) ==> after@[other] == before@[other]
        },
{
}

/// A new section has no key, and what it gives out are its keys and texts, each key once.
pub proof fn sections_give_out_their_keys(
    fresh: ConfigSection,
    section: ConfigSection,
    r: Vec<(String, Option<String>)>,
    i: int,
    j: int,
    key: Seq<char>,
)
    requires
        call_ensures(ConfigSection::new, (), fresh),
        call_ensures(ConfigSection::into_entries, (section,), r),
    ensures
        !fresh@.contains_key(key),
        0 <= i < r@.len() ==> section@.contains_key(r@[i].0@) && match r@[i].1 {
            Some(text) => section@[r@[i].0@] == Some(text@),
            None => section@[r@[i].0@] is None,
        },
        0 <= i < j < r@.len() ==> r@[i].0@ != r@[j].0@,
        section@.contains_key(key) ==> exists|k: int|
            0 <= k < r@.len() && (#[trigger] r@[k]).0@ == key,
{
    if 0 <= i < r@.len() {
        lemma_entry(r@, i);
    }
    if section@.contains_key(key) {
        let k = choose|k: int| has_key(r@, k, key);
        assert(r@[k].0@ == key);
    }
}

/// A document of a list of sections has these sections, each with its keys and texts, and no
/// others.
pub proof fn documents_have_the_listed_sections(
    list: Vec<(String, Vec<(String, Option<String>)>)>,
    r: ConfigDocument,
    i: int,
    k: int,
    name: Seq<char>,
    key: Seq<char>,
)
    requires
        forall|a: int, b: int|
            0 <= a < b < list@.len() ==> (#[trigger] list@[a]).0@ != (#[trigger] list@[b]).0@,
        forall|a: int, b: int, c: int|
            0 <= a < list@.len() && 0 <= b < c < list@[a].1@.len() ==> (
            #[trigger] list@[a].1@[b]).0@ != (#[trigger] list@[a].1@[c]).0@,
        0 <= i < list@.len(),
        0 <= k < list@[i].1@.len(),
        call_ensures(document_from, (list,), r),
    ensures
        r@.contains_key(list@[i].0@),
        r@[list@[i].0@].contains_key(list@[i].1@[k].0@),
        match list@[i].1@[k].1 {
            Some(text) => r@[list@[i].0@][list@[i].1@[k].0@] == Some(text@),
            None => r@[list@[i].0@][list@[i].1@[k].0@] is None,
        },
        r@.contains_key(name) ==> exists|a: int|
            0 <= a < list@.len() && (#[trigger] list@[a]).0@ == name,
        r@[list@[i].0@].contains_key(key) ==> exists|b: int|
            0 <= b < list@[i].1@.len() && (#[trigger] list@[i].1@[b]).0@ == key,
{
    lemma_entry(list@, i);
    lemma_entry(list@[i].1@, k);
    if r@.contains_key(name) {
        let a = choose|a: int| has_key(list@, a, name);
        assert(list@[a].0@ == name);
    }
    if r@[list@[i].0@].contains_key(key) {
        let b = choose|b: int| has_key(list@[i].1@, b, key);
        assert(list@[i].1@[b].0@ == key);
    }
}

/// Files are read with the main section as the default one, a hash for comments and an equals sign
/// between a key and its value.
pub proof fn files_are_read_in_one_format(
    parser: ParserSettings,
    text: String,
    r: Result<ConfigDocument, ConfigError>,
)
    requires
        call_ensures(get_parser, (), parser),
        call_ensures(ParserSettings::read, (parser, text), r),
    ensures
        document_value(text@) == ini_sections("rusty-valve"@, seq!['#'], seq!['='], text@),
        match r {
            Ok(document) => document_value(text@) == Ok::<DocumentMap, Seq<char>>(document@),
            Err(e) => e matches ConfigError::Syntax(why) && document_value(text@) == Err::<
                DocumentMap,
                Seq<char>,
            >(why@),
        },
{
}

/// The text is a port.
pub open spec fn is_port(text: Seq<char>) -> bool {
    unsigned_value(text) matches Some(n) && n <= 65535
}

/// The outcome of taking a document over, be it one that has been read or the one that a text
/// writes.
pub open spec fn taken_over(
    before: ConfigBuilder,
    document: DocumentMap,
    log: LoggerConfig,
    test_build: bool,
    r: Result<(ConfigBuilder, LoggerConfig), ConfigError>,
) -> bool {
    ||| exists|d: ConfigDocument|
        d@ == document && #[trigger] call_ensures(
            ConfigBuilder::apply_document,
            (before, d, log, test_build),
            r,
        )
    ||| exists|text: String|
        {
            &&& before.config_file_path is Some
            &&& document_value(text@) == Ok::<DocumentMap, Seq<char>>(document)
            &&& #[trigger] call_ensures(
                ConfigBuilder::get_ini_config,
                (before, text, log, test_build),
                r,
            )
        }
}

/// A file is taken where it has the main section, both lists of addresses can be read and every key
/// of the forwarded ports is a port. Otherwise the first of these that fails is the error.
pub proof fn files_are_taken_without_fault(
    before: ConfigBuilder,
    document: DocumentMap,
    log: LoggerConfig,
    test_build: bool,
    r: Result<(ConfigBuilder, LoggerConfig), ConfigError>,
)
    requires
        taken_over(before, document, log, test_build, r),
    ensures
        ({
            let main = document["rusty-valve"@];
            let addresses = values_at::<IpAddr>(main, "bind-addresses"@, test_build) is Some
                && values_at::<IpAddr>(main, "destination-addresses"@, test_build) is Some;
            let keys = document.contains_key("tcp-rp-ports"@) ==> forall|key: Seq<char>| #[trigger]
                document["tcp-rp-ports"@].contains_key(key) ==> is_port(key);
            if !document.contains_key("rusty-valve"@) {
                r matches Err(ConfigError::SectionNotFound(name)) && name@ == "rusty-valve"@
            } else if !addresses {
                r matches Err(ConfigError::InvalidValue)
            } else if !keys {
                r matches Err(ConfigError::InvalidSourcePort)
            } else {
                r is Ok
            }
        }),
{
    let tcp = document["tcp-rp-ports"@];
    if document.contains_key("tcp-rp-ports"@) {
        if forall|key: Seq<char>| #[trigger] tcp.contains_key(key) ==> is_port(key) {
            assert(keys_are_ports(tcp));
        }
        if keys_are_ports(tcp) {
            assert forall|key: Seq<char>| #[trigger] tcp.contains_key(key) implies is_port(key) by {
                assert(source_port(key) is Some);
            }
        }
    }
}

/// The addresses to bind to and those of the machines are the ones that the main section lists.
/// What the file does not speak of stays.
pub proof fn addresses_are_configured(
    before: ConfigBuilder,
    document: DocumentMap,
    log: LoggerConfig,
    test_build: bool,
    after: ConfigBuilder,
    log_after: LoggerConfig,
)
    requires
        taken_over(before, document, log, test_build, Ok((after, log_after))),
    ensures
        ({
            let main = document["rusty-valve"@];
            &&& values_at::<IpAddr>(main, "bind-addresses"@, test_build) == Some(
                after.bind_addresses@,
            )
            &&& values_at::<IpAddr>(main, "destination-addresses"@, test_build) == Some(
                after.load_balancer_addrs@,
            )
        }),
        after.config_file_path == before.config_file_path,
        after.server_settings == before.server_settings,
        after.connection_settings == before.connection_settings,
        after.conn_tls_ch_max == before.conn_tls_ch_max,
        !document.contains_key("tls-rp-ports"@) ==> {
            &&& after.fallback_tls_destination_port == before.fallback_tls_destination_port
            &&& after.tls_rp_listen_port == before.tls_rp_listen_port
            &&& after.tls_rp_dest_provider == before.tls_rp_dest_provider
        },
        !document.contains_key("tcp-rp-ports"@) ==> after.tcp_rp_dest_provider
            == before.tcp_rp_dest_provider,
        !document.contains_key("ssh-tarpit"@) ==> {
            &&& after.ssh_tarpit_max_connections == before.ssh_tarpit_max_connections
            &&& after.ssh_tarpit_banner_repeat_time == before.ssh_tarpit_banner_repeat_time
        },
        !document.contains_key("logger"@) ==> log_after == log,
{
}

/// The tarpit holds as many clients as its section says, and none where the section does not say
/// it. The time between lines stays where the section does not give one.
pub proof fn the_tarpit_is_configured(
    before: ConfigBuilder,
    document: DocumentMap,
    log: LoggerConfig,
    test_build: bool,
    after: ConfigBuilder,
    log_after: LoggerConfig,
)
    requires
        taken_over(before, document, log, test_build, Ok((after, log_after))),
        document.contains_key("ssh-tarpit"@),
    ensures
        ({
            let section = document["ssh-tarpit"@];
            &&& match value_at::<usize>(section, "max-connections"@, test_build) {
                Some(n) => after.ssh_tarpit_max_connections == n,
                None => after.ssh_tarpit_max_connections == 0,
            }
            &&& match value_at::<Seconds>(section, "banner-repeat-time"@, test_build) {
                Some(time) => after.ssh_tarpit_banner_repeat_time == time,
                None => after.ssh_tarpit_banner_repeat_time == before.ssh_tarpit_banner_repeat_time,
            }
        }),
{
}

/// The log goes to the file and is printed as its section says; where the section does not say it,
/// the one is missing and the other left open. The levels stay where the section does not give
/// them.
pub proof fn the_log_is_configured(
    before: ConfigBuilder,
    document: DocumentMap,
    log: LoggerConfig,
    test_build: bool,
    after: ConfigBuilder,
    log_after: LoggerConfig,
)
    requires
        taken_over(before, document, log, test_build, Ok((after, log_after))),
        document.contains_key("logger"@),
    ensures
        ({
            let section = document["logger"@];
            &&& match value_at::<String>(section, "log-file"@, test_build) {
                Some(path) => log_after.log_path matches Some(p) && p@ == path,
                None => log_after.log_path is None,
            }
            &&& log_after.stdout_log == value_at::<bool>(section, "print-log"@, test_build)
            &&& match value_at::<LogLevel>(section, "print-level"@, test_build) {
                Some(level) => log_after.print_level == level,
                None => log_after.print_level == log.print_level,
            }
            &&& match value_at::<LogLevel>(section, "logfile-level"@, test_build) {
                Some(level) => log_after.logfile_level == level,
                None => log_after.logfile_level == log.logfile_level,
            }
        }),
{
}

/// What a text leads to: the destinations that it writes, and where it writes none, or is missing,
/// the other destination by itself.
pub open spec fn leads_to(
    possible: PossibleDestinationsView,
    text: Option<Seq<char>>,
    otherwise: DestinationView,
    test_build: bool,
) -> bool {
    let by_itself = possible.destination == otherwise && possible.else_destination is None;
    match text {
        Some(t) => match possible_destinations_value(t, test_build) {
            Ok(p) => possible == p,
            Err(_) => by_itself,
        },
        None => by_itself,
    }
}

/// Every host that the file lists gets the destinations that stand with it. Only where none stand
/// there, or none that can be read, it gets the fallback, which the main section may set. Hosts
/// that are not listed stay as they were.
pub proof fn hosts_get_the_destinations_that_stand_with_them(
    before: ConfigBuilder,
    document: DocumentMap,
    log: LoggerConfig,
    test_build: bool,
    after: ConfigBuilder,
    log_after: LoggerConfig,
    host: Seq<char>,
)
    requires
        taken_over(before, document, log, test_build, Ok((after, log_after))),
        document.contains_key("tls-rp-ports"@),
    ensures
        ({
            let main = document["rusty-valve"@];
            let section = document["tls-rp-ports"@];
            let old_hosts = before.tls_rp_dest_provider@;
            let new_hosts = after.tls_rp_dest_provider@;
            &&& section.contains_key(host) ==> {
                &&& new_hosts.contains_key(host)
                &&& (section[host] is Some && possible_destinations_value(
                    section[host]->0,
                    test_build,
                ) is Ok) ==> new_hosts[host]@ == possible_destinations_value(
                    section[host]->0,
                    test_build,
                )->Ok_0
                &&& leads_to(
                    new_hosts[host]@,
                    section[host],
                    after.fallback_tls_destination_port@,
                    test_build,
                )
            }
            &&& !section.contains_key(host) ==> {
                &&& new_hosts.contains_key(host) <==> old_hosts.contains_key(host)
                &&& old_hosts.contains_key(host) ==> new_hosts[host]@ == old_hosts[host]@
            }
            &&& match value_at::<Destination>(main, "fallback-tls-destination-port"@, test_build) {
                Some(d) => after.fallback_tls_destination_port@ == d,
                None => after.fallback_tls_destination_port@
                    == before.fallback_tls_destination_port@,
            }
            &&& match values_at::<u16>(main, "tls-rp-listen-port"@, test_build) {
                Some(list) => after.tls_rp_listen_port@ == list,
                None => after.tls_rp_listen_port@ == before.tls_rp_listen_port@,
            }
        }),
{
    let section = document["tls-rp-ports"@];
    let fallback = after.fallback_tls_destination_port@;
    let listed = section_hosts(section, fallback, test_build);
    let routes = hosts(before.tls_rp_dest_provider@).union_prefer_right(listed);
    assert(hosts(after.tls_rp_dest_provider@) == routes);
    assert(routes.contains_key(host) <==> after.tls_rp_dest_provider@.contains_key(host));
    assert(listed.contains_key(host) <==> section.contains_key(host));
    assert(hosts(before.tls_rp_dest_provider@).contains_key(host)
        <==> before.tls_rp_dest_provider@.contains_key(host));
    if routes.contains_key(host) {
        assert(hosts(after.tls_rp_dest_provider@)[host] == after.tls_rp_dest_provider@[host]@);
        if section.contains_key(host) {
            assert(routes[host] == listed[host]);
        } else {
            assert(routes[host] == hosts(before.tls_rp_dest_provider@)[host]);
            assert(hosts(before.tls_rp_dest_provider@)[host]
                == before.tls_rp_dest_provider@[host]@);
        }
    }
}

/// The entry is what the key and its text come to: the port that the key writes, and the
/// destinations that the text writes, or the same port where it writes none.
pub open spec fn forwards(
    entry: (u16, PossibleDestinations),
    key: Seq<char>,
    text: Option<Seq<char>>,
    test_build: bool,
) -> bool {
    &&& unsigned_value(key) == Some(entry.0 as nat)
    &&& leads_to(entry.1@, text, DestinationView::PortOnly(entry.0), test_build)
}

/// The ports that were forwarded before stay, and behind them stands one entry for every key of the
/// section, in some order.
pub proof fn ports_get_the_destinations_that_stand_with_them(
    before: ConfigBuilder,
    document: DocumentMap,
    log: LoggerConfig,
    test_build: bool,
    after: ConfigBuilder,
    log_after: LoggerConfig,
)
    requires
        taken_over(before, document, log, test_build, Ok((after, log_after))),
        document.contains_key("tcp-rp-ports"@),
    ensures
        ({
            let section = document["tcp-rp-ports"@];
            let known = before.tcp_rp_dest_provider@;
            let all = after.tcp_rp_dest_provider@;
            &&& all.len() >= known.len()
            &&& forall|i: int|
                0 <= i < known.len() ==> (#[trigger] all[i]).0 == known[i].0 && all[i].1@
                    == known[i].1@
            &&& exists|keys: Seq<Seq<char>>|
                {
                    &&& #[trigger] keys.no_duplicates()
                    &&& keys.to_set() == section.dom()
                    &&& all.len() == known.len() + keys.len()
                    &&& forall|i: int|
                        0 <= i < keys.len() ==> forwards(
                            all[known.len() + i],
                            #[trigger] keys[i],
                            section[keys[i]],
                            test_build,
                        )
                }
        }),
{
    let section = document["tcp-rp-ports"@];
    let known = before.tcp_rp_dest_provider@;
    let all = after.tcp_rp_dest_provider@;
    let added = choose|added: Seq<(u16, PossibleDestinationsView)>| #[trigger]
        holds_section(section, added, test_build) && ports(all) == ports(known)
            + added;
    let keys = choose|keys: Seq<Seq<char>>| lists_section(section, keys, added, test_build);
    assert(lists_section(section, keys, added, test_build));
    assert(all.len() == ports(all).len());
    assert(known.len() == ports(known).len());
    assert forall|i: int| 0 <= i < known.len() implies (#[trigger] all[i]).0 == known[i].0
        && all[i].1@ == known[i].1@ by {
        assert(ports(all)[i] == ports(known)[i]);
    }
    assert(keys.no_duplicates());
    assert forall|i: int| 0 <= i < keys.len() implies forwards(
        all[known.len() + i],
        #[trigger] keys[i],
        section[keys[i]],
        test_build,
    ) by {
        assert(ports(all)[known.len() + i] == added[i]);
        assert(keys.to_set().contains(keys[i]));
        assert(section.contains_key(keys[i]));
        assert(source_port(keys[i]) is Some);
    }
}

/// A text that is no configuration file is an error that says why. Without a path for the file
/// there is an error whatever the text is.
pub proof fn what_is_no_file_is_refused(
    before: ConfigBuilder,
    text: String,
    log: LoggerConfig,
    test_build: bool,
    r: Result<(ConfigBuilder, LoggerConfig), ConfigError>,
)
    requires
        call_ensures(ConfigBuilder::get_ini_config, (before, text, log, test_build), r),
    ensures
        before.config_file_path is None ==> r matches Err(ConfigError::PathNotSet),
        before.config_file_path is Some ==> match document_value(text@) {
            Err(why) => r matches Err(ConfigError::Syntax(w)) && w@ == why,
            Ok(document) => taken_over(before, document, log, test_build, r),
        },
{
}

/// Before anything is configured there are no addresses, no hosts and no forwarded ports; the
/// listener for host names has two ports, and the other settings have their usual values.
pub proof fn builders_start_with_defaults(r: ConfigBuilder, d: ConfigBuilder, s: ConfigBuilder)
    requires
        call_ensures(ConfigBuilder::new, (), r) || call_ensures(ConfigBuilder::default, (), r),
        call_ensures(ConfigBuilder::set_defaults, (d,), s),
    ensures
        s == d,
        r.config_file_path is None,
        r.server_settings.forward_queue == 50,
        r.connection_settings.timeout.secs == 5,
        r.bind_addresses@.len() == 0,
        r.tls_rp_dest_provider@.dom() == Set::<Seq<char>>::empty(),
        r.fallback_tls_destination_port@ == DestinationView::PortOnly(4443),
        r.tls_rp_listen_port@ == seq![4080u16, 4443u16],
        r.conn_tls_ch_max == 16358,
        r.tcp_rp_dest_provider@.len() == 0,
        r.ssh_tarpit_max_connections == 0,
        r.ssh_tarpit_banner_repeat_time.secs == 10,
        r.load_balancer_addrs@.len() == 0,
{
    assert(r.tls_rp_dest_provider@.dom() =~= Set::<Seq<char>>::empty());
}

/// The path of the file is the one that is given, and in a debug build always the same. Nothing
/// else changes.
pub proof fn the_path_comes_from_the_command_line(
    before: ConfigBuilder,
    path: Option<String>,
    debug_build: bool,
    after: ConfigBuilder,
)
    requires
        call_ensures(ConfigBuilder::get_opts, (before, path, debug_build), after),
    ensures
        debug_build ==> (after.config_file_path matches Some(p) && p@
            == "resources/config/config.ini"@),
        !debug_build ==> after.config_file_path == path,
        after.server_settings == before.server_settings,
        after.connection_settings == before.connection_settings,
        after.bind_addresses == before.bind_addresses,
        after.tls_rp_dest_provider == before.tls_rp_dest_provider,
        after.fallback_tls_destination_port == before.fallback_tls_destination_port,
        after.tls_rp_listen_port == before.tls_rp_listen_port,
        after.conn_tls_ch_max == before.conn_tls_ch_max,
        after.tcp_rp_dest_provider == before.tcp_rp_dest_provider,
        after.ssh_tarpit_max_connections == before.ssh_tarpit_max_connections,
        after.ssh_tarpit_banner_repeat_time == before.ssh_tarpit_banner_repeat_time,
        after.load_balancer_addrs == before.load_balancer_addrs,
{
}

/// Every part of the server that has something to do is configured with what was set for it, and no
/// other part is.
pub proof fn parts_with_something_to_do_are_built(b: ConfigBuilder, c: Config)
    requires
        call_ensures(ConfigBuilder::build, (b,), c),
    ensures
        c.bind_settings matches Some(bind) && bind.bind_ip_addrs@ == b.bind_addresses@
            && bind.tls_rp_bind_port@ == b.tls_rp_listen_port@,
        c.server_settings == Some(b.server_settings),
        c.load_balancer_config is Some <==> b.load_balancer_addrs@.len() > 0,
        c.load_balancer_config matches Some(lb) ==> lb.addresses@ == b.load_balancer_addrs@,
        c.tls_rp_config is Some <==> exists|host: Seq<char>|
            #[trigger] b.tls_rp_dest_provider@.contains_key(host),
        c.tls_rp_config matches Some(tls) ==> {
            &&& tls.destination_provider@ == b.tls_rp_dest_provider@
            &&& tls.connection_settings.connection_settings == b.connection_settings
            &&& tls.connection_settings.max_client_hello_size == b.conn_tls_ch_max
        },
        c.tcp_rp_config is Some <==> b.tcp_rp_dest_provider@.len() > 0,
        c.tcp_rp_config matches Some(tcp) ==> {
            &&& tcp.destination_provider@ == b.tcp_rp_dest_provider@
            &&& tcp.connection_settings == b.connection_settings
        },
        c.ssh_tarpit_config is Some <==> b.ssh_tarpit_max_connections > 0,
        c.ssh_tarpit_config matches Some(tarpit) ==> {
            &&& tarpit.max_connections == b.ssh_tarpit_max_connections
            &&& tarpit.banner_repeat_time == b.ssh_tarpit_banner_repeat_time
        },
{
    let m = b.tls_rp_dest_provider@;
    let none = Map::<Seq<char>, PossibleDestinations>::empty();
    if m != none {
        if forall|host: Seq<char>| !#[trigger] m.contains_key(host) {
            assert(m =~= none);
        }
    }
}

} // verus!
