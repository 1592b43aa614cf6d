//! Configuration files: sections of keys and values, and reading values out of them.

use vstd::prelude::*;
use crate::addr::{ip_value, parse_ip, IpAddr};
use crate::config::settings::Seconds;
use crate::connection::{
    destination_value, possible_destinations_value, Destination, DestinationView,
    PossibleDestinations, PossibleDestinationsView,
};
use crate::text::{
    bounded_value, parse_u16, parse_unsigned, same_text, split_terminator, strip_brackets,
    terminated_pieces, trim, trimmed, views, without_brackets,
};
use crate::text_map::{distinct_keys, entries_map, lemma_first_entry, TextMap};
use crate::utils::logging::{level_value, opt_text, parse_level, LogLevel};

verus! {

/// A text does not write a value of the wanted type.
#[derive(Clone, Copy, Debug, PartialEq, Eq, Structural)]
pub struct InvalidValue {}

/// What can be read from the text of a configuration value. `test_build` tells whether the service
/// for tests is known, which counts for destinations alone.
pub trait TryFromConfig: View + Sized {
    /// The value that a text writes.
    spec fn config_value(text: Seq<char>, test_build: bool) -> Option<Self::V>;

    /// Reads a value.
    fn try_from_config(value: String, test_build: bool) -> (r: Result<Self, InvalidValue>)
        ensures
            match r {
                Ok(v) => Self::config_value(value@, test_build) == Some(v@),
                Err(_) => Self::config_value(value@, test_build) is None,
            },
    ;
}

impl TryFromConfig for bool {
    open spec fn config_value(text: Seq<char>, test_build: bool) -> Option<bool> {
        if text == "true"@ {
            Some(true)
        } else if text == "false"@ {
            Some(false)
        } else {
            None
        }
    }

    fn try_from_config(value: String, test_build: bool) -> Result<bool, InvalidValue> {
        if same_text(value.as_str(), "true") {
            Ok(true)
        } else if same_text(value.as_str(), "false") {
            proof {
                reveal_strlit("true");
                reveal_strlit("false");
                assert("true"@.len() != "false"@.len());
            }
            Ok(false)
        } else {
            Err(InvalidValue {  })
        }
    }
}

impl TryFromConfig for IpAddr {
    /// An address, in square brackets or not.
    open spec fn config_value(text: Seq<char>, test_build: bool) -> Option<IpAddr> {
        ip_value(without_brackets(text))
    }

    fn try_from_config(value: String, test_build: bool) -> Result<IpAddr, InvalidValue> {
        match parse_ip(strip_brackets(value.as_str()).as_str()) {
            Some(ip) => Ok(ip),
            None => Err(InvalidValue {  }),
        }
    }
}

impl TryFromConfig for u16 {
    open spec fn config_value(text: Seq<char>, test_build: bool) -> Option<u16> {
        match bounded_value(text, u16::MAX as nat) {
            Some(n) => Some(n as u16),
            None => None,
        }
    }

    fn try_from_config(value: String, test_build: bool) -> Result<u16, InvalidValue> {
        match parse_u16(value.as_str()) {
            Some(n) => Ok(n),
            None => Err(InvalidValue {  }),
        }
    }
}

impl TryFromConfig for usize {
    open spec fn config_value(text: Seq<char>, test_build: bool) -> Option<usize> {
        match bounded_value(text, usize::MAX as nat) {
            Some(n) => Some(n as usize),
            None => None,
        }
    }

    fn try_from_config(value: String, test_build: bool) -> Result<usize, InvalidValue> {
        match parse_unsigned(value.as_str(), usize::MAX as u64) {
            Some(n) => Ok(n as usize),
            None => Err(InvalidValue {  }),
        }
    }
}

impl TryFromConfig for Seconds {
    open spec fn config_value(text: Seq<char>, test_build: bool) -> Option<Seconds> {
        match bounded_value(text, u64::MAX as nat) {
            Some(n) => Some(Seconds { secs: n as u64 }),
            None => None,
        }
    }

    fn try_from_config(value: String, test_build: bool) -> Result<Seconds, InvalidValue> {
        match parse_unsigned(value.as_str(), u64::MAX) {
            Some(n) => Ok(Seconds { secs: n }),
            None => Err(InvalidValue {  }),
        }
    }
}

impl TryFromConfig for String {
    /// Any text will do for a path.
    open spec fn config_value(text: Seq<char>, test_build: bool) -> Option<Seq<char>> {
        Some(text)
    }

    fn try_from_config(value: String, test_build: bool) -> Result<String, InvalidValue> {
        Ok(value)
    }
}

impl TryFromConfig for LogLevel {
    open spec fn config_value(text: Seq<char>, test_build: bool) -> Option<LogLevel> {
        level_value(text)
    }

    fn try_from_config(value: String, test_build: bool) -> Result<LogLevel, InvalidValue> {
        match parse_level(value.as_str()) {
            Some(level) => Ok(level),
            None => Err(InvalidValue {  }),
        }
    }
}

impl TryFromConfig for PossibleDestinations {
    open spec fn config_value(text: Seq<char>, test_build: bool) -> Option<
        PossibleDestinationsView,
    > {
        match possible_destinations_value(text, test_build) {
            Ok(possible) => Some(possible),
            Err(_) => None,
        }
    }

    fn try_from_config(value: String, test_build: bool) -> Result<
        PossibleDestinations,
        InvalidValue,
    > {
        match PossibleDestinations::from_str(value.as_str(), test_build) {
            Ok(possible) => Ok(possible),
            Err(_) => Err(InvalidValue {  }),
        }
    }
}

impl TryFromConfig for Destination {
    open spec fn config_value(text: Seq<char>, test_build: bool) -> Option<DestinationView> {
        match destination_value(text, test_build) {
            Ok(destination) => Some(destination),
            Err(_) => None,
        }
    }

    fn try_from_config(value: String, test_build: bool) -> Result<Destination, InvalidValue> {
        match Destination::from_str(value.as_str(), test_build) {
            Ok(destination) => Ok(destination),
            Err(_) => Err(InvalidValue {  }),
        }
    }
}

/// Why a configuration was not taken.
#[derive(Debug, PartialEq, Eq)]
pub enum ConfigError {
    /// There is no path of a configuration file.
    PathNotSet,
    /// The file is not in the format of a configuration file; the text says why.
    Syntax(String),
    /// The named section is missing.
    SectionNotFound(String),
    /// The named key is missing, or its value is of another type.
    ValueNotTaken(String),
    /// A value is of another type than its key calls for.
    InvalidValue,
    /// The key of a forwarded port is not a port.
    InvalidSourcePort,
}

/// The keys of a section with their values, as a map.
pub type SectionMap = Map<Seq<char>, Option<Seq<char>>>;

/// One section of a configuration file.
pub struct ConfigSection {
    map: TextMap<Option<String>>,
}

impl View for ConfigSection {
    type V = SectionMap;

    closed spec fn view(&self) -> SectionMap {
        self.map@.map_values(|o: Option<String>| opt_text(o))
    }
}

/// The text of a key that has a value.
pub open spec fn text_at(section: SectionMap, key: Seq<char>) -> Option<Seq<char>> {
    if section.contains_key(key) {
        section[key]
    } else {
        None
    }
}

/// The value of a key, where the key is there with a value of the wanted type.
pub open spec fn value_at<T: TryFromConfig>(
    section: SectionMap,
    key: Seq<char>,
    test_build: bool,
) -> Option<T::V> {
    match text_at(section, key) {
        Some(text) => T::config_value(text, test_build),
        None => None,
    }
}

/// The values that a list of texts writes, white space round them aside.
pub open spec fn listed_values<T: TryFromConfig>(
    list: Seq<Seq<char>>,
    test_build: bool,
) -> Option<Seq<T::V>> {
    if forall|i: int|
        0 <= i < list.len() ==> T::config_value(
            trimmed(#[trigger] list[i]),
            test_build,
        ) is Some {
        Some(Seq::new(list.len(), |i: int| T::config_value(trimmed(list[i]), test_build)->0))
    } else {
        None
    }
}

/// The values of a key that holds a list with commas; none where the key is missing or empty.
pub open spec fn values_at<T: TryFromConfig>(
    section: SectionMap,
    key: Seq<char>,
    test_build: bool,
) -> Option<Seq<T::V>> {
    match text_at(section, key) {
        Some(text) => listed_values::<T>(terminated_pieces(text, ','), test_build),
        None => Some(Seq::empty()),
    }
}

/// The views of a list.
pub open spec fn all_views<T: View>(list: Seq<T>) -> Seq<T::V> {
    list.map_values(|t: T| t@)
}

impl ConfigSection {
    pub fn new() -> (r: Self)
        ensures
            r@ == SectionMap::empty(),
    {
        let r = ConfigSection { map: TextMap::new() };
        assert(r@ =~= SectionMap::empty());
        r
    }

    /// Sets the value of a key; a key may be without one.
    pub fn insert(&mut self, key: String, value: Option<String>)
        ensures
            final(self)@ == old(self)@.insert(key@, opt_text(value)),
    {
        self.map.insert(key, value);
        assert(self@ =~= old(self)@.insert(key@, opt_text(value)));
    }

    /// Takes the text of a key out.
    fn remove(&mut self, key: &str) -> (r: Option<String>)
        ensures
            final(self)@ == old(self)@.remove(key@),
            opt_text(r) == text_at(old(self)@, key@),
    {
        let r = self.map.remove(key);
        assert(self@ =~= old(self)@.remove(key@));
        match r {
            Some(text) => text,
            None => None,
        }
    }

    /// Takes a value out that has to be there. The key is gone afterwards either way.
    pub fn take_value<T: TryFromConfig>(&mut self, key: &str, test_build: bool) -> (r: Result<
        T,
        ConfigError,
    >)
        ensures
            final(self)@ == old(self)@.remove(key@),
            match r {
                Ok(v) => value_at::<T>(old(self)@, key@, test_build) == Some(v@),
                Err(e) => value_at::<T>(old(self)@, key@, test_build) is None && (e matches
                    ConfigError::ValueNotTaken(k) && k@ == key@),
            },
    {
        match self.take_opt_value::<T>(key, test_build) {
            Some(v) => Ok(v),
            None => Err(ConfigError::ValueNotTaken(key.to_owned())),
        }
    }

    /// Takes a value out, if it is there and of the right type. The key is gone afterwards either
    /// way.
    pub fn take_opt_value<T: TryFromConfig>(&mut self, key: &str, test_build: bool) -> (r: Option<
        T,
    >)
        ensures
            final(self)@ == old(self)@.remove(key@),
            match r {
                Some(v) => value_at::<T>(old(self)@, key@, test_build) == Some(v@),
                None => value_at::<T>(old(self)@, key@, test_build) is None,
            },
    {
        match self.remove(key) {
            Some(text) => match T::try_from_config(text, test_build) {
                Ok(v) => Some(v),
                Err(_) => None,
            },
            None => None,
        }
    }

    /// Takes a list of values out. The key is gone afterwards either way.
    pub fn take_multi_value<T: TryFromConfig>(&mut self, key: &str, test_build: bool) -> (r: Result<
        Vec<T>,
        ConfigError,
    >)
        ensures
            final(self)@ == old(self)@.remove(key@),
            match r {
                Ok(list) => values_at::<T>(old(self)@, key@, test_build) == Some(all_views(list@)),
                Err(e) => values_at::<T>(old(self)@, key@, test_build) is None && e
                    == ConfigError::InvalidValue,
            },
    {
        let text = match self.remove(key) {
            Some(text) => text,
            None => {
                let list: Vec<T> = Vec::new();
                assert(all_views(list@) =~= Seq::<T::V>::empty());
                return Ok(list);
            },
        };
        let parts = split_terminator(text.as_str(), ',');
        let ghost texts = views(parts@);
        let mut list: Vec<T> = Vec::new();
        let mut i: usize = 0;
        while i < parts.len()
            invariant
                i <= parts.len(),
                texts == views(parts@),
                texts == terminated_pieces(text@, ','),
                text_at(old(self)@, key@) == Some(text@),
                self@ == old(self)@.remove(key@),
                list.len() == i,
                forall|j: int|
                    0 <= j < i ==> T::config_value(trimmed(#[trigger] texts[j]), test_build)
                        == Some(list[j]@),
            decreases parts.len() - i,
        {
            assert(texts[i as int] == parts[i as int]@);
            match T::try_from_config(trim(parts[i]).to_owned(), test_build) {
                Ok(v) => {
                    list.push(v);
                },
                Err(_) => {
                    assert(T::config_value(trimmed(texts[i as int]), test_build) is None);
                    return Err(ConfigError::InvalidValue);
                },
            }
            i += 1;
        }
        assert(all_views(list@) =~= Seq::new(
            texts.len(),
            |i: int| T::config_value(trimmed(texts[i]), test_build)->0,
        ));
        Ok(list)
    }

    /// Gives the keys and values out, each key once, in no particular order.
    pub fn into_entries(self) -> (r: Vec<(String, Option<String>)>)
        ensures
            distinct_keys(r@),
            entries_map(r@).map_values(|o: Option<String>| opt_text(o)) == self@,
    {
        self.map.into_entries()
    }
}

/// The sections of a file, as a map.
pub type DocumentMap = Map<Seq<char>, SectionMap>;

/// A configuration file that has been read.
pub struct ConfigDocument {
    map: TextMap<ConfigSection>,
}

impl View for ConfigDocument {
    type V = DocumentMap;

    closed spec fn view(&self) -> DocumentMap {
        self.map@.map_values(|section: ConfigSection| section@)
    }
}

impl ConfigDocument {
    pub fn new() -> (r: Self)
        ensures
            r@ == DocumentMap::empty(),
    {
        let r = ConfigDocument { map: TextMap::new() };
        assert(r@ =~= DocumentMap::empty());
        r
    }

    /// Sets a section.
    pub fn insert(&mut self, name: String, section: ConfigSection)
        ensures
            final(self)@ == old(self)@.insert(name@, section@),
    {
        self.map.insert(name, section);
        assert(self@ =~= old(self)@.insert(name@, section@));
    }

    /// Takes a section out, if it is there.
    pub fn take_section(&mut self, section_name: &str) -> (r: Option<ConfigSection>)
        ensures
            final(self)@ == old(self)@.remove(section_name@),
            match r {
                Some(section) => old(self)@.contains_key(section_name@) && section@ == old(
                    self,
                )@[section_name@],
                None => !old(self)@.contains_key(section_name@),
            },
    {
        let r = self.map.remove(section_name);
        assert(self@ =~= old(self)@.remove(section_name@));
        r
    }

    /// Takes a section out that has to be there.
    pub fn try_take_section(&mut self, section_name: &str) -> (r: Result<
        ConfigSection,
        ConfigError,
    >)
        ensures
            final(self)@ == old(self)@.remove(section_name@),
            match r {
                Ok(section) => old(self)@.contains_key(section_name@) && section@ == old(
                    self,
                )@[section_name@],
                Err(e) => !old(self)@.contains_key(section_name@) && (e matches
                    ConfigError::SectionNotFound(name) && name@ == section_name@),
            },
    {
        match self.take_section(section_name) {
            Some(section) => Ok(section),
            None => Err(ConfigError::SectionNotFound(section_name.to_owned())),
        }
    }

    /// Lets `f` change a section in place that has to be there.
    pub fn get_section<F: FnOnce(ConfigSection) -> (ConfigSection, Result<(), ConfigError>)>(
        &mut self,
        section_name: &str,
        f: F,
    ) -> (r: Result<(), ConfigError>)
        requires
            forall|section: ConfigSection| #[trigger] f.requires((section,)),
        ensures
            old(self)@.contains_key(section_name@) ==> exists|
                before: ConfigSection,
                after: ConfigSection,
            | #[trigger]
                f.ensures((before,), (after, r)) && before@ == old(self)@[section_name@]
                    && final(self)@ == old(self)@.insert(section_name@, after@),
            !old(self)@.contains_key(section_name@) ==> {
                &&& final(self)@ == old(self)@
                &&& r matches Err(ConfigError::SectionNotFound(name)) && name@ == section_name@
            },
    {
        match self.take_section(section_name) {
            Some(before) => {
                let (after, r) = f(before);
                self.insert(section_name.to_owned(), after);
                assert(self@ =~= old(self)@.insert(section_name@, after@));
                r
            },
            None => {
                assert(self@ =~= old(self)@);
                Err(ConfigError::SectionNotFound(section_name.to_owned()))
            },
        }
    }
}

/// The sections that the parser of configuration files reads out of a text, or why it does not.
pub uninterp spec fn ini_sections(
    default_section: Seq<char>,
    comment_symbols: Seq<char>,
    delimiters: Seq<char>,
    text: Seq<char>,
) -> Result<Map<Seq<char>, Map<Seq<char>, Option<Seq<char>>>>, Seq<char>>;

/// The sections that a list of sections stands for.
pub open spec fn listed_sections(
    list: Seq<(String, Vec<(String, Option<String>)>)>,
) -> DocumentMap {
    entries_map(list).map_values(
        |keys: Vec<(String, Option<String>)>|
            entries_map(keys@).map_values(|o: Option<String>| opt_text(o)),
    )
}

/// Reads a text with `configparser::ini::Ini::read`, on a parser that
/// `configparser::ini::Ini::new_from_defaults` makes: the default section, the comment symbols and
/// the delimiters are those given, the rest is as in `configparser::ini::IniDefault::default`.
///
/// What is read depends on the text and on those settings alone; `ini_sections` is its name. The
/// parser gives out hash maps, so every section has one name and every key stands once in its
/// section, and the order of both is left open.
#[verifier::external_body]
fn read_ini(
    default_section: String,
    comment_symbols: Vec<char>,
    delimiters: Vec<char>,
    text: String,
) -> (r: Result<Vec<(String, Vec<(String, Option<String>)>)>, String>)
    ensures
        match r {
            Ok(list) => {
                &&& distinct_keys(list@)
                &&& forall|i: int| 0 <= i < list.len() ==> distinct_keys((#[trigger] list[i]).1@)
                &&& ini_sections(default_section@, comment_symbols@, delimiters@, text@) == Ok::<
                    DocumentMap,
                    Seq<char>,
                >(listed_sections(list@))
            },
            Err(why) => ini_sections(default_section@, comment_symbols@, delimiters@, text@)
                == Err::<DocumentMap, Seq<char>>(why@),
        },
{
    let mut defaults = configparser::ini::IniDefault::default();
    defaults.default_section = default_section;
    defaults.comment_symbols = comment_symbols;
    defaults.delimiters = delimiters;
    let sections = configparser::ini::Ini::new_from_defaults(defaults).read(text)?;
    Ok(sections.into_iter().map(|(name, keys)| (name, keys.into_iter().collect())).collect())
}

/// The settings of the parser of configuration files.
pub struct ParserSettings {
    pub default_section: String,
    pub comment_symbols: Vec<char>,
    pub delimiters: Vec<char>,
}

/// The sections of a configuration file of the proxy.
pub open spec fn document_value(text: Seq<char>) -> Result<DocumentMap, Seq<char>> {
    ini_sections("rusty-valve"@, seq!['#'], seq!['='], text)
}

/// The parser for the proxy's own files: keys before the first section belong to the main one, a
/// hash starts a comment, and an equals sign parts a key from its value.
pub fn get_parser() -> (r: ParserSettings)
    ensures
        r.default_section@ == "rusty-valve"@,
        r.comment_symbols@ == seq!['#'],
        r.delimiters@ == seq!['='],
{
    ParserSettings {
        default_section: "rusty-valve".to_owned(),
        comment_symbols: vec!['#'],
        delimiters: vec!['='],
    }
}

impl ParserSettings {
    /// Reads the text of a configuration file.
    pub fn read(self, text: String) -> (r: Result<ConfigDocument, ConfigError>)
        ensures
            match r {
                Ok(document) => ini_sections(
                    self.default_section@,
                    self.comment_symbols@,
                    self.delimiters@,
                    text@,
                ) == Ok::<DocumentMap, Seq<char>>(document@),
                Err(e) => e matches ConfigError::Syntax(why) && ini_sections(
                    self.default_section@,
                    self.comment_symbols@,
                    self.delimiters@,
                    text@,
                ) == Err::<DocumentMap, Seq<char>>(why@),
            },
    {
        match read_ini(self.default_section, self.comment_symbols, self.delimiters, text) {
            Ok(list) => Ok(document_from(list)),
            Err(why) => Err(ConfigError::Syntax(why)),
        }
    }
}

/// The document of a list of sections.
pub fn document_from(list: Vec<(String, Vec<(String, Option<String>)>)>) -> (r: ConfigDocument)
    requires
        distinct_keys(list@),
        forall|i: int| 0 <= i < list.len() ==> distinct_keys((#[trigger] list[i]).1@),
    ensures
        r@ == listed_sections(list@),
{
    let ghost all = list@;
    let mut rest = list;
    let mut document = ConfigDocument::new();
    while rest.len() > 0
        invariant
            rest.len() <= all.len(),
            rest@ == all.take(rest.len() as int),
            distinct_keys(all),
            forall|i: int| 0 <= i < all.len() ==> distinct_keys((#[trigger] all[i]).1@),
            document@ == listed_sections(all.skip(rest.len() as int)),
        decreases rest.len(),
    {
        let ghost n = rest.len() as int;
        let (name, keys) = rest.pop().unwrap();
        let section = ConfigSection { map: TextMap::from_entries(keys) };
        document.insert(name, section);
        proof {
            let tail = all.skip(n - 1);
            assert forall|i: int, j: int| 0 <= i < j < tail.len() implies (#[trigger] tail[i]).0@
                != (#[trigger] tail[j]).0@ by {
                assert(tail[i] == all[i + n - 1]);
                assert(tail[j] == all[j + n - 1]);
            }
            lemma_first_entry(tail);
            assert(tail.skip(1) =~= all.skip(n));
            assert(document@ =~= listed_sections(tail));
        }
    }
    assert(all.skip(0) =~= all);
    document
}

} // verus!
