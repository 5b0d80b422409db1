//! The service's configuration: which options exist, where their values come
//! from, and how each value is checked before the service starts.

use vstd::prelude::*;
use vstd::string::*;
use crate::bridge::{
    cuts_cleanly, env_filter_accepts, env_filter_parses, filter_parses_safely, is_cut_mark,
    lowercase_of, names_no_value, regex_is_match, regex_search, to_lowercase, to_uppercase,
    uppercase_of,
};
use crate::constants::{DEFAULT_PORT, DEFAULT_PORT_NUMBER, DEFAULT_RUST_LOG};
use crate::text::{
    chars_of, find_in_range, is_white_space, leading_white, lemma_position_bounds,
    lemma_trimmed_bounds, position, range_is, ranges_split, split, split_ranges, str_eq,
    text_or_none, trim_range, trimmed, white_space,
};

verus! {

/// One option: how it is named on the command line and in the environment,
/// and what is said of it in the usage text.
#[derive(Debug, Clone, Copy)]
pub struct ConfigDescriptor {
    pub cli_arg_name: &'static str,
    pub env_var_name: &'static str,
    pub description: &'static str,
    pub name: &'static str,
    pub mandatory: Option<bool>,
    pub default_value: Option<&'static str>,
}

impl ConfigDescriptor {
    /// The host of the Pokemon data service.
    pub open spec fn pokeapi_host_spec() -> ConfigDescriptor {
        ConfigDescriptor {
            cli_arg_name: "--pokeapi-host",
            env_var_name: "POKEAPI_HOST",
            description: "PokéAPI hostname (e.g., \"pokeapi.co\")",
            name: "pokeapi host",
            mandatory: Some(true),
            default_value: None,
        }
    }

    /// Whether the Pokemon data service is reached over TLS.
    pub open spec fn pokeapi_secure_spec() -> ConfigDescriptor {
        ConfigDescriptor {
            cli_arg_name: "--pokeapi-secure",
            env_var_name: "POKEAPI_SECURE",
            description: "use secure connection for PokéAPI (true/false)",
            name: "pokeapi secure",
            mandatory: None,
            default_value: Some("true"),
        }
    }

    /// The host of the translation service.
    pub open spec fn fun_translations_host_spec() -> ConfigDescriptor {
        ConfigDescriptor {
            cli_arg_name: "--fun-translations-host",
            env_var_name: "FUN_TRANSLATIONS_HOST",
            description: "fun translations API hostname (e.g., \"api.funtranslations.com\")",
            name: "fun translations host",
            mandatory: Some(true),
            default_value: None,
        }
    }

    /// Whether the translation service is reached over TLS.
    pub open spec fn fun_translations_secure_spec() -> ConfigDescriptor {
        ConfigDescriptor {
            cli_arg_name: "--fun-translations-secure",
            env_var_name: "FUN_TRANSLATIONS_SECURE",
            description: "use secure connection for fun translations API (true/false)",
            name: "fun translations secure",
            mandatory: None,
            default_value: Some("true"),
        }
    }

    /// The port the service listens on.
    pub open spec fn port_spec() -> ConfigDescriptor {
        ConfigDescriptor {
            cli_arg_name: "--port",
            env_var_name: "PORT",
            description: "server listening port (1-65535)",
            name: "port",
            mandatory: None,
            default_value: Some(DEFAULT_PORT),
        }
    }

    /// The log filter.
    pub open spec fn rust_log_spec() -> ConfigDescriptor {
        ConfigDescriptor {
            cli_arg_name: "--rust-log",
            env_var_name: "RUST_LOG",
            description: "tracing log level (e.g., \"info\", \"debug\", etc.)",
            name: "rust log",
            mandatory: None,
            default_value: Some(DEFAULT_RUST_LOG),
        }
    }

    /// Every option, in the order the usage text lists them.
    pub open spec fn all_spec() -> Seq<ConfigDescriptor> {
        seq![
            Self::pokeapi_host_spec(),
            Self::fun_translations_host_spec(),
            Self::port_spec(),
            Self::pokeapi_secure_spec(),
            Self::fun_translations_secure_spec(),
            Self::rust_log_spec(),
        ]
    }

    /// The host of the Pokemon data service.
    #[verifier::when_used_as_spec(pokeapi_host_spec)]
    pub fn pokeapi_host() -> (d: ConfigDescriptor)
        ensures
            d == Self::pokeapi_host_spec(),
    {
        ConfigDescriptor {
            cli_arg_name: "--pokeapi-host",
            env_var_name: "POKEAPI_HOST",
            description: "PokéAPI hostname (e.g., \"pokeapi.co\")",
            name: "pokeapi host",
            mandatory: Some(true),
            default_value: None,
        }
    }

    /// Whether the Pokemon data service is reached over TLS.
    #[verifier::when_used_as_spec(pokeapi_secure_spec)]
    pub fn pokeapi_secure() -> (d: ConfigDescriptor)
        ensures
            d == Self::pokeapi_secure_spec(),
    {
        ConfigDescriptor {
            cli_arg_name: "--pokeapi-secure",
            env_var_name: "POKEAPI_SECURE",
            description: "use secure connection for PokéAPI (true/false)",
            name: "pokeapi secure",
            mandatory: None,
            default_value: Some("true"),
        }
    }

    /// The host of the translation service.
    #[verifier::when_used_as_spec(fun_translations_host_spec)]
    pub fn fun_translations_host() -> (d: ConfigDescriptor)
        ensures
            d == Self::fun_translations_host_spec(),
    {
        ConfigDescriptor {
            cli_arg_name: "--fun-translations-host",
            env_var_name: "FUN_TRANSLATIONS_HOST",
            description: "fun translations API hostname (e.g., \"api.funtranslations.com\")",
            name: "fun translations host",
            mandatory: Some(true),
            default_value: None,
        }
    }

    /// Whether the translation service is reached over TLS.
    #[verifier::when_used_as_spec(fun_translations_secure_spec)]
    pub fn fun_translations_secure() -> (d: ConfigDescriptor)
        ensures
            d == Self::fun_translations_secure_spec(),
    {
        ConfigDescriptor {
            cli_arg_name: "--fun-translations-secure",
            env_var_name: "FUN_TRANSLATIONS_SECURE",
            description: "use secure connection for fun translations API (true/false)",
            name: "fun translations secure",
            mandatory: None,
            default_value: Some("true"),
        }
    }

    /// The port the service listens on.
    #[verifier::when_used_as_spec(port_spec)]
    pub fn port() -> (d: ConfigDescriptor)
        ensures
            d == Self::port_spec(),
    {
        ConfigDescriptor {
            cli_arg_name: "--port",
            env_var_name: "PORT",
            description: "server listening port (1-65535)",
            name: "port",
            mandatory: None,
            default_value: Some(DEFAULT_PORT),
        }
    }

    /// The log filter.
    #[verifier::when_used_as_spec(rust_log_spec)]
    pub fn rust_log() -> (d: ConfigDescriptor)
        ensures
            d == Self::rust_log_spec(),
    {
        ConfigDescriptor {
            cli_arg_name: "--rust-log",
            env_var_name: "RUST_LOG",
            description: "tracing log level (e.g., \"info\", \"debug\", etc.)",
            name: "rust log",
            mandatory: None,
            default_value: Some(DEFAULT_RUST_LOG),
        }
    }

    /// Every option, in the order the usage text lists them.
    pub fn all() -> (all: [ConfigDescriptor; 6])
        ensures
            all@ == Self::all_spec(),
    {
        let all = [
            Self::pokeapi_host(),
            Self::fun_translations_host(),
            Self::port(),
            Self::pokeapi_secure(),
            Self::fun_translations_secure(),
            Self::rust_log(),
        ];
        all
    }
}

/// A source of configuration values.
pub trait ConfigParser {
    /// The value this source holds for `descriptor`, if any.
    spec fn value_of(&self, descriptor: &ConfigDescriptor) -> Option<Seq<char>>;

    /// Looks up the value this source holds for `descriptor`.
    fn parse(&self, descriptor: &ConfigDescriptor) -> (value: Option<String>)
        ensures
            text_or_none(value) == self.value_of(descriptor),
    ;
}

/// The command line: an option's value is the argument after its flag.
pub struct CliParser {
    args: Vec<String>,
}

/// The value that follows the first occurrence of `flag` in `args`.
pub open spec fn flag_value(args: Seq<String>, flag: Seq<char>) -> Option<Seq<char>>
    decreases args.len(),
{
    if args.len() < 2 {
        None
    } else if args[0]@ == flag {
        Some(args[1]@)
    } else {
        flag_value(args.drop_first(), flag)
    }
}

impl CliParser {
    /// The arguments this parser looks through.
    pub closed spec fn arguments(&self) -> Seq<String> {
        self.args@
    }

    /// A parser over the given arguments, the program's name included.
    pub fn new(args: Vec<String>) -> (parser: CliParser)
        ensures
            parser.arguments() == args@,
    {
        CliParser { args }
    }
}

impl ConfigParser for CliParser {
    open spec fn value_of(&self, descriptor: &ConfigDescriptor) -> Option<Seq<char>> {
        flag_value(self.arguments(), descriptor.cli_arg_name@)
    }

    fn parse(&self, descriptor: &ConfigDescriptor) -> (value: Option<String>) {
        let n: usize = self.args.len();
        if n < 2 {
            return None;
        }
        let mut i: usize = 0;
        assert(self.args@.skip(0) =~= self.args@);
        while i < n - 1
            invariant
                n == self.args.len(),
                i < n,
                flag_value(self.args@, descriptor.cli_arg_name@) == flag_value(
                    self.args@.skip(i as int),
                    descriptor.cli_arg_name@,
                ),
            decreases n - i,
        {
            let ghost rest = self.args@.skip(i as int);
            if str_eq(self.args[i].as_str(), descriptor.cli_arg_name) {
                return Some(self.args[i + 1].clone());
            }
            assert(rest.drop_first() =~= self.args@.skip(i + 1));
            i = i + 1;
        }
        None
    }
}

/// The environment, as a list of names and values. A variable that is set
/// to nothing counts as not set.
pub struct EnvParser {
    vars: Vec<(String, String)>,
}

/// The value of the first variable called `name`.
pub open spec fn variable(vars: Seq<(String, String)>, name: Seq<char>) -> Option<Seq<char>>
    decreases vars.len(),
{
    if vars.len() == 0 {
        None
    } else if vars[0].0@ == name {
        Some(vars[0].1@)
    } else {
        variable(vars.drop_first(), name)
    }
}

impl EnvParser {
    /// The variables this parser looks through.
    pub closed spec fn variables(&self) -> Seq<(String, String)> {
        self.vars@
    }

    /// A parser over the given variables, each a name and its value.
    pub fn new(vars: Vec<(String, String)>) -> (parser: EnvParser)
        ensures
            parser.variables() == vars@,
    {
        EnvParser { vars }
    }
}

impl ConfigParser for EnvParser {
    open spec fn value_of(&self, descriptor: &ConfigDescriptor) -> Option<Seq<char>> {
        match variable(self.variables(), descriptor.env_var_name@) {
            Some(value) => if value.len() > 0 {
                Some(value)
            } else {
                None
            },
            None => None,
        }
    }

    fn parse(&self, descriptor: &ConfigDescriptor) -> (value: Option<String>) {
        let n: usize = self.vars.len();
        let mut i: usize = 0;
        assert(self.vars@.skip(0) =~= self.vars@);
        while i < n
            invariant
                n == self.vars.len(),
                i <= n,
                variable(self.vars@, descriptor.env_var_name@) == variable(
                    self.vars@.skip(i as int),
                    descriptor.env_var_name@,
                ),
            decreases n - i,
        {
            let ghost rest = self.vars@.skip(i as int);
            if str_eq(self.vars[i].0.as_str(), descriptor.env_var_name) {
                if self.vars[i].1.as_str().is_empty() {
                    return None;
                }
                return Some(self.vars[i].1.clone());
            }
            assert(rest.drop_first() =~= self.vars@.skip(i + 1));
            i = i + 1;
        }
        None
    }
}

/// What is wrong with a configuration.
#[derive(Debug)]
pub enum ConfigError {
    /// A mandatory option has no value; the option's name.
    MissingRequired(String),
    /// A value does not have the form its option asks for; what is wrong.
    InvalidFormat(String),
    /// Several options are at fault.
    Multiple(Vec<ConfigError>),
}

/// A `ConfigError`, with its texts as sequences of characters.
pub enum ConfigErrorView {
    MissingRequired(Seq<char>),
    InvalidFormat(Seq<char>),
    Multiple(Seq<ConfigErrorView>),
}

impl View for ConfigError {
    type V = ConfigErrorView;

    open spec fn view(&self) -> ConfigErrorView
        decreases self,
    {
        match self {
            ConfigError::MissingRequired(what) => ConfigErrorView::MissingRequired(what@),
            ConfigError::InvalidFormat(what) => ConfigErrorView::InvalidFormat(what@),
            ConfigError::Multiple(errors) => ConfigErrorView::Multiple(
                Seq::new(
                    errors@.len(),
                    |i: int|
                        if 0 <= i < errors@.len() {
                            errors@[i].view()
                        } else {
                            ConfigErrorView::Multiple(Seq::empty())
                        },
                ),
            ),
        }
    }
}

/// The views of a list of errors, in order.
pub open spec fn views_of(errors: Seq<ConfigError>) -> Seq<ConfigErrorView> {
    Seq::new(errors.len(), |i: int| errors[i]@)
}

impl ConfigErrorView {
    /// The error, in words.
    pub open spec fn message(self) -> Seq<char>
        decreases self,
    {
        match self {
            ConfigErrorView::MissingRequired(what) => "missing required configuration: "@ + what,
            ConfigErrorView::InvalidFormat(what) => "invalid format: "@ + what,
            ConfigErrorView::Multiple(errors) => "multiple configuration errors:\n"@ + bullets(
                errors,
            ),
        }
    }
}

/// One line for each error, opened by a dash; a line break between lines.
pub open spec fn bullets(errors: Seq<ConfigErrorView>) -> Seq<char>
    decreases errors,
{
    if errors.len() == 0 {
        Seq::empty()
    } else if errors.len() == 1 {
        "  - "@ + errors[0].message()
    } else {
        bullets(errors.drop_last()) + "\n"@ + "  - "@ + errors.last().message()
    }
}

impl ConfigError {
    /// The error, in words.
    pub fn to_string(&self) -> (text: String)
        ensures
            text@ == self@.message(),
        decreases self,
    {
        match self {
            ConfigError::MissingRequired(what) => {
                let mut text = String::from_str("missing required configuration: ");
                text.append(what.as_str());
                text
            },
            ConfigError::InvalidFormat(what) => {
                let mut text = String::from_str("invalid format: ");
                text.append(what.as_str());
                text
            },
            ConfigError::Multiple(errors) => {
                let ghost all = self@->Multiple_0;
                let mut text = String::from_str("multiple configuration errors:\n");
                let mut i: usize = 0;
                while i < errors.len()
                    invariant
                        i <= errors.len(),
                        self == ConfigError::Multiple(*errors),
                        all == self@->Multiple_0,
                        text@ == "multiple configuration errors:\n"@ + bullets(all.take(i as int)),
                    decreases errors.len() - i,
                {
                    let line = errors[i].to_string();
                    let ghost before = all.take(i as int);
                    let ghost now = all.take(i + 1);
                    assert(now.drop_last() =~= before);
                    if i > 0 {
                        text.append("\n");
                    }
                    text.append("  - ");
                    text.append(line.as_str());
                    i = i + 1;
                }
                assert(all.take(i as int) =~= all);
                text
            },
        }
    }
}

/// A result, with its error as a view.
pub open spec fn outcome<T>(r: Result<T, ConfigError>) -> Result<T, ConfigErrorView> {
    match r {
        Ok(value) => Ok(value),
        Err(error) => Err(error@),
    }
}

/// A result that holds a text, with both sides as views.
pub open spec fn text_outcome(r: Result<String, ConfigError>) -> Result<Seq<char>, ConfigErrorView> {
    match r {
        Ok(value) => Ok(value@),
        Err(error) => Err(error@),
    }
}

/// A checked configuration.
#[derive(Debug, Clone)]
pub struct AppConfig {
    pub pokeapi_host: String,
    pub pokeapi_secure: bool,
    pub fun_translations_host: String,
    pub fun_translations_secure: bool,
    pub port: u16,
    pub rust_log: String,
}

/// The scheme that reaches a service, with or without TLS.
pub open spec fn scheme(secure: bool) -> Seq<char> {
    if secure {
        "https"@
    } else {
        "http"@
    }
}

impl AppConfig {
    /// Where the Pokemon data service is reached.
    pub fn pokeapi_base_url(&self) -> (url: String)
        ensures
            url@ == scheme(self.pokeapi_secure) + "://"@ + self.pokeapi_host@ + "/api/v2"@,
    {
        let mut url = String::from_str(if self.pokeapi_secure { "https" } else { "http" });
        url.append("://");
        url.append(self.pokeapi_host.as_str());
        url.append("/api/v2");
        url
    }

    /// Where the translation service is reached.
    pub fn fun_translations_base_url(&self) -> (url: String)
        ensures
            url@ == scheme(self.fun_translations_secure) + "://"@ + self.fun_translations_host@
                + "/translate"@,
    {
        let mut url = String::from_str(
            if self.fun_translations_secure { "https" } else { "http" },
        );
        url.append("://");
        url.append(self.fun_translations_host.as_str());
        url.append("/translate");
        url
    }

    /// Checks that `host` has the form of a host name. The answer follows
    /// what the search for `HOST_PATTERN` in `host` finds; a pattern that
    /// cannot be compiled matches nothing.
    pub fn validate_host(host: String, name: &'static str) -> (r: Result<String, ConfigError>)
        ensures
            text_outcome(r) == host_outcome(host@, name@, regex_search(HOST_PATTERN@, host@)),
            r matches Ok(same) ==> same == host,
    {
        let found = regex_is_match(HOST_PATTERN, host.as_str());
        host_from_match(host, name, found)
    }
}

/// The form a host name must have: labels of letters, digits and hyphens,
/// none longer than 63 characters, none opening or ending with a hyphen, with
/// dots between them.
pub const HOST_PATTERN: &'static str =
    r"^[a-zA-Z0-9]([a-zA-Z0-9-]{0,61}[a-zA-Z0-9])?(\.[a-zA-Z0-9]([a-zA-Z0-9-]{0,61}[a-zA-Z0-9])?)*$";

/// What is said of a host name that does not have the form asked for.
pub open spec fn invalid_host_message(name: Seq<char>, host: Seq<char>) -> Seq<char> {
    "invalid "@ + name + " format: "@ + host
}

/// What becomes of a host name, given what the search for `HOST_PATTERN` in
/// it found: the name itself where the pattern matched, an error otherwise.
pub open spec fn host_outcome(host: Seq<char>, name: Seq<char>, found: Option<bool>) -> Result<
    Seq<char>,
    ConfigErrorView,
> {
    if found == Some(true) {
        Ok(host)
    } else {
        Err(ConfigErrorView::InvalidFormat(invalid_host_message(name, host)))
    }
}

/// Accepts `host` where the search for the host pattern matched, and says
/// what is wrong with it otherwise.
pub fn host_from_match(host: String, name: &'static str, found: Option<bool>) -> (r: Result<
    String,
    ConfigError,
>)
    ensures
        text_outcome(r) == host_outcome(host@, name@, found),
        r matches Ok(same) ==> same == host,
{
    match found {
        Some(true) => Ok(host),
        _ => {
            let mut message = String::from_str("invalid ");
            message.append(name);
            message.append(" format: ");
            message.append(host.as_str());
            Err(ConfigError::InvalidFormat(message))
        },
    }
}

/// What is said of a value that is neither `true` nor `false`.
pub open spec fn invalid_bool_message(name: Seq<char>, value: Seq<char>) -> Seq<char> {
    "invalid boolean value for "@ + name + ": '"@ + value + "' (expected 'true' or 'false')"@
}

/// What becomes of a switch, given its value in lower case: `true` and
/// `false` are read as such, and anything else is an error that quotes the
/// value as it was written.
pub open spec fn bool_outcome(lowered: Seq<char>, value: Seq<char>, name: Seq<char>) -> Result<
    bool,
    ConfigErrorView,
> {
    if lowered == "true"@ {
        Ok(true)
    } else if lowered == "false"@ {
        Ok(false)
    } else {
        Err(ConfigErrorView::InvalidFormat(invalid_bool_message(name, value)))
    }
}

/// Reads a switch from its value in lower case.
pub fn bool_from_lowercase(lowered: &str, value: &str, name: &'static str) -> (r: Result<
    bool,
    ConfigError,
>)
    ensures
        outcome(r) == bool_outcome(lowered@, value@, name@),
{
    if str_eq(lowered, "true") {
        Ok(true)
    } else if str_eq(lowered, "false") {
        Ok(false)
    } else {
        let mut message = String::from_str("invalid boolean value for ");
        message.append(name);
        message.append(": '");
        message.append(value);
        message.append("' (expected 'true' or 'false')");
        Err(ConfigError::InvalidFormat(message))
    }
}

/// Reads a switch: `true` or `false`, in any mix of cases.
pub fn parse_bool_config(value: &str, name: &'static str) -> (r: Result<bool, ConfigError>)
    ensures
        outcome(r) == bool_outcome(lowercase_of(value@), value@, name@),
{
    let lowered = to_lowercase(value);
    bool_from_lowercase(lowered.as_str(), value, name)
}

/// Whether `c` is a decimal digit.
pub open spec fn is_digit(c: char) -> bool {
    '0' <= c <= '9'
}

/// Whether `s` holds decimal digits and nothing else.
pub open spec fn all_digits(s: Seq<char>) -> bool {
    forall|i: int| 0 <= i < s.len() ==> is_digit(#[trigger] s[i])
}

/// The number that the decimal digits `s` write.
pub open spec fn decimal(s: Seq<char>) -> nat
    decreases s.len(),
{
    if s.len() == 0 {
        0
    } else {
        decimal(s.drop_last()) * 10 + (s.last() as u32 - '0' as u32) as nat
    }
}

/// `s` without the plus sign it may open with.
pub open spec fn unsigned_part(s: Seq<char>) -> Seq<char> {
    if s.len() > 0 && s[0] == '+' {
        s.drop_first()
    } else {
        s
    }
}

/// The 16-bit number that `s` writes: one or more decimal digits, a plus
/// sign before them or not, nothing else, and no more than 65535 in value.
pub open spec fn reads_as_u16(s: Seq<char>) -> Option<u16> {
    let digits = unsigned_part(s);
    if digits.len() > 0 && all_digits(digits) && decimal(digits) <= 0xFFFF {
        Some(decimal(digits) as u16)
    } else {
        None
    }
}

/// What is said of a port that reads as zero.
pub open spec fn port_range_message(name: Seq<char>, value: Seq<char>) -> Seq<char> {
    "invalid "@ + name + " number: "@ + value + " (must be 1-65535)"@
}

/// What is said of a port that is no number.
pub open spec fn port_number_message(value: Seq<char>) -> Seq<char> {
    "port must be a valid number: "@ + value + " (expected 1-65535)"@
}

/// What becomes of a port: a number from 1 to 65535 is read, zero is out of
/// range, and anything else is no number.
pub open spec fn port_outcome(value: Seq<char>, name: Seq<char>) -> Result<u16, ConfigErrorView> {
    match reads_as_u16(value) {
        Some(port) => if port > 0 {
            Ok(port)
        } else {
            Err(ConfigErrorView::InvalidFormat(port_range_message(name, value)))
        },
        None => Err(ConfigErrorView::InvalidFormat(port_number_message(value))),
    }
}

/// A number only grows as digits are read.
proof fn lemma_decimal_grows(s: Seq<char>, i: int)
    requires
        0 <= i <= s.len(),
        all_digits(s),
    ensures
        decimal(s.take(i)) <= decimal(s),
    decreases s.len() - i,
{
    if i < s.len() {
        let longer = s.take(i + 1);
        assert(longer.drop_last() =~= s.take(i));
        lemma_decimal_grows(s, i + 1);
    } else {
        assert(s.take(i) =~= s);
    }
}

/// Reads a 16-bit number written in decimal digits.
pub fn parse_u16(value: &str) -> (r: Option<u16>)
    ensures
        r == reads_as_u16(value@),
{
    let chars = chars_of(value);
    let n: usize = chars.len();
    let start: usize = if n > 0 && chars[0] == '+' { 1 } else { 0 };
    let ghost digits = unsigned_part(value@);
    if start == n {
        return None;
    }
    let mut total: u32 = 0;
    let mut i: usize = start;
    while i < n
        invariant
            start <= i <= n,
            n == chars.len(),
            digits == unsigned_part(value@),
            digits == chars@.subrange(start as int, n as int),
            all_digits(digits.take(i - start)),
            total == decimal(digits.take(i - start)),
            total <= 0xFFFF,
        decreases n - i,
    {
        let c = chars[i];
        let ghost before = digits.take(i - start);
        let ghost now = digits.take(i - start + 1);
        assert(now.drop_last() =~= before);
        if !('0' <= c && c <= '9') {
            assert(!is_digit(digits[i - start]));
            return None;
        }
        assert(all_digits(now));
        let digit: u32 = c as u32 - '0' as u32;
        total = total * 10 + digit;
        if total > 0xFFFF {
            proof {
                if all_digits(digits) {
                    lemma_decimal_grows(digits, i - start + 1);
                }
            }
            return None;
        }
        i = i + 1;
    }
    assert(digits.take(n - start) =~= digits);
    Some(total as u16)
}

/// Reads a listening port: a number from 1 to 65535.
pub fn parse_port_config(value: &str, name: &'static str) -> (r: Result<u16, ConfigError>)
    ensures
        outcome(r) == port_outcome(value@, name@),
{
    match parse_u16(value) {
        Some(port) => if port > 0 {
            Ok(port)
        } else {
            let mut message = String::from_str("invalid ");
            message.append(name);
            message.append(" number: ");
            message.append(value);
            message.append(" (must be 1-65535)");
            Err(ConfigError::InvalidFormat(message))
        },
        None => {
            let mut message = String::from_str("port must be a valid number: ");
            message.append(value);
            message.append(" (expected 1-65535)");
            Err(ConfigError::InvalidFormat(message))
        },
    }
}

/// Whether `s` names a log level.
pub open spec fn is_level(s: Seq<char>) -> bool {
    s == "trace"@ || s == "debug"@ || s == "info"@ || s == "warn"@ || s == "error"@
}

/// What is said of a filter that holds nothing.
pub open spec fn empty_filter_message() -> Seq<char> {
    "log level filter cannot be empty (e.g., 'info', 'debug', 'trace')"@
}

/// What is said of a directive that holds nothing.
pub open spec fn empty_directive_message() -> Seq<char> {
    "log level directive segment cannot be empty"@
}

/// What is said of a level, set for a module, that is no level.
pub open spec fn invalid_level_message(level: Seq<char>) -> Seq<char> {
    "invalid log level: '"@ + level + "' (expected one of: trace, debug, info, warn, error)"@
}

/// What is said of a level, set for everything, that is no level.
pub open spec fn invalid_global_level_message(level: Seq<char>) -> Seq<char> {
    "invalid global log level: '"@ + level
        + "' (expected one of: trace, debug, info, warn, error)"@
}

/// What is said of a filter that the filter's own parser refuses.
pub open spec fn invalid_filter_message(filter: Seq<char>) -> Seq<char> {
    "invalid log level filter: '"@ + filter + "' (e.g., 'info', 'debug', 'trace')"@
}

/// What is wrong with one directive, if anything. White space around it is
/// ignored. With an equals sign in it, what follows the first one must name a
/// level; without, the directive itself must.
pub open spec fn directive_fault(directive: Seq<char>) -> Option<Seq<char>> {
    let body = trimmed(directive);
    let at = position(body, '=');
    if body.len() == 0 {
        Some(empty_directive_message())
    } else if at < body.len() {
        let level = trimmed(body.skip(at as int + 1));
        if is_level(level) {
            None
        } else {
            Some(invalid_level_message(level))
        }
    } else if is_level(body) {
        None
    } else {
        Some(invalid_global_level_message(body))
    }
}

/// What is wrong with the first faulty directive from index `from` on.
pub open spec fn first_fault(directives: Seq<Seq<char>>, from: int) -> Option<Seq<char>>
    decreases directives.len() - from,
{
    if from < 0 || from >= directives.len() {
        None
    } else {
        match directive_fault(directives[from]) {
            Some(message) => Some(message),
            None => first_fault(directives, from + 1),
        }
    }
}

/// What the checks on a filter's form come to: the filter without the white
/// space around it, or what is wrong with it. An empty filter is refused;
/// then the first faulty directive decides.
pub open spec fn filter_form(value: Seq<char>) -> Result<Seq<char>, ConfigErrorView> {
    let filter = trimmed(value);
    if filter.len() == 0 {
        Err(ConfigErrorView::InvalidFormat(empty_filter_message()))
    } else {
        match first_fault(split(filter, ','), 0) {
            Some(message) => Err(ConfigErrorView::InvalidFormat(message)),
            None => Ok(filter),
        }
    }
}

/// What becomes of a filter of good form, given whether the filter's own
/// parser accepts it.
pub open spec fn filter_verdict(filter: Seq<char>, accepted: bool) -> Result<
    Seq<char>,
    ConfigErrorView,
> {
    if accepted {
        Ok(filter)
    } else {
        Err(ConfigErrorView::InvalidFormat(invalid_filter_message(filter)))
    }
}

/// What becomes of a log filter, given whether the filter's own parser
/// accepts it once trimmed. A filter of good form is kept, trimmed, where
/// the parser can safely be asked and accepts it.
pub open spec fn log_filter_outcome(value: Seq<char>, accepted: bool) -> Result<
    Seq<char>,
    ConfigErrorView,
> {
    match filter_form(value) {
        Ok(filter) => filter_verdict(filter, filter_parses_safely(filter) && accepted),
        Err(error) => Err(error),
    }
}

/// Whether the characters from `lo` up to `hi` name a log level.
fn level_in_range(chars: &Vec<char>, lo: usize, hi: usize) -> (r: bool)
    requires
        lo <= hi <= chars.len(),
    ensures
        r == is_level(chars@.subrange(lo as int, hi as int)),
{
    range_is(chars, lo, hi, "trace") || range_is(chars, lo, hi, "debug") || range_is(
        chars,
        lo,
        hi,
        "info",
    ) || range_is(chars, lo, hi, "warn") || range_is(chars, lo, hi, "error")
}

/// What is wrong with the directive that `lo..hi` marks in `filter`.
fn check_directive(filter: &str, chars: &Vec<char>, lo: usize, hi: usize) -> (fault: Option<String>)
    requires
        chars@ == filter@,
        lo <= hi <= chars.len(),
    ensures
        text_or_none(fault) == directive_fault(chars@.subrange(lo as int, hi as int)),
{
    let ghost directive = chars@.subrange(lo as int, hi as int);
    let (a, b) = trim_range(chars, lo, hi);
    let ghost body = trimmed(directive);
    if a == b {
        return Some(String::from_str("log level directive segment cannot be empty"));
    }
    let at = find_in_range(chars, a, b, '=');
    if at < b {
        let ghost rest = body.skip(at - a + 1);
        assert(rest =~= chars@.subrange(at + 1, b as int));
        let (la, lb) = trim_range(chars, at + 1, b);
        if level_in_range(chars, la, lb) {
            None
        } else {
            let mut message = String::from_str("invalid log level: '");
            message.append(filter.substring_char(la, lb));
            message.append("' (expected one of: trace, debug, info, warn, error)");
            Some(message)
        }
    } else if level_in_range(chars, a, b) {
        None
    } else {
        let mut message = String::from_str("invalid global log level: '");
        message.append(filter.substring_char(a, b));
        message.append("' (expected one of: trace, debug, info, warn, error)");
        Some(message)
    }
}

/// Whether the directive that `lo..hi` marks cuts cleanly.
fn directive_cuts_cleanly(chars: &Vec<char>, lo: usize, hi: usize) -> (clean: bool)
    requires
        lo <= hi <= chars.len(),
    ensures
        clean == cuts_cleanly(chars@.subrange(lo as int, hi as int)),
{
    let ghost directive = chars@.subrange(lo as int, hi as int);
    if lo == hi || !white_space(chars[lo]) {
        assert(lo < hi ==> directive[0] == chars@[lo as int]);
        return true;
    }
    assert(directive[0] == chars@[lo as int]);
    let mut plain = true;
    let mut unmarked = true;
    let mut i: usize = lo;
    while i < hi
        invariant
            lo <= i <= hi <= chars.len(),
            directive == chars@.subrange(lo as int, hi as int),
            plain == (forall|k: int| 0 <= k < i - lo ==> (#[trigger] directive[k]) as u32 <= 0x7F),
            unmarked == (forall|k: int| 0 <= k < i - lo ==> !is_cut_mark(#[trigger] directive[k])),
        decreases hi - i,
    {
        let c = chars[i];
        assert(directive[i - lo] == c);
        if c as u32 > 0x7F {
            plain = false;
        }
        if c == '=' || c == '[' || c == ']' || c == '{' || c == '}' {
            unmarked = false;
        }
        i = i + 1;
    }
    plain || unmarked
}

/// No letter of a level is an equals sign or a closing brace.
proof fn lemma_level_letters(level: Seq<char>)
    requires
        is_level(level),
    ensures
        forall|k: int| 0 <= k < level.len() ==> #[trigger] level[k] != '=' && level[k] != '}',
{
    reveal_strlit("trace");
    reveal_strlit("debug");
    reveal_strlit("info");
    reveal_strlit("warn");
    reveal_strlit("error");
}

/// A directive without fault names no value for a field: nothing but a
/// level follows its first equals sign, so no closing brace does.
proof fn lemma_faultless_names_no_value(directive: Seq<char>)
    requires
        directive_fault(directive) is None,
    ensures
        names_no_value(directive),
{
    let body = trimmed(directive);
    let from = leading_white(directive) as int;
    let at = position(body, '=') as int;
    lemma_trimmed_bounds(directive);
    lemma_position_bounds(body, '=');
    assert forall|i: int, j: int| 0 <= i < j < directive.len() implies !(#[trigger] directive[i]
        == '=' && #[trigger] directive[j] == '}') by {
        if directive[i] == '=' && directive[j] == '}' {
            assert(!is_white_space('=') && !is_white_space('}'));
            assert(from <= i < from + body.len());
            assert(from <= j < from + body.len());
            assert(body[i - from] == '=');
            assert(at <= i - from);
            let rest = body.skip(at + 1);
            let level = trimmed(rest);
            let inset = leading_white(rest) as int;
            let place = j - from - at - 1;
            lemma_trimmed_bounds(rest);
            assert(rest[place] == '}');
            assert(inset <= place < inset + level.len());
            assert(level[place - inset] == '}');
            lemma_level_letters(level);
        }
    }
}

/// Checks the form of a log filter: not empty, and each comma-separated
/// directive either a level or a module with a level. Gives back the filter
/// without the white space around it, and whether its own parser can safely
/// be asked about it.
pub fn check_log_filter(value: &str) -> (r: Result<(String, bool), ConfigError>)
    ensures
        match r {
            Ok((filter, safe)) => filter_form(value@) == Ok::<Seq<char>, ConfigErrorView>(filter@)
                && safe == filter_parses_safely(filter@),
            Err(error) => filter_form(value@) == Err::<Seq<char>, ConfigErrorView>(error@),
        },
{
    let whole = chars_of(value);
    assert(whole@.subrange(0, whole.len() as int) =~= value@);
    let (from, to) = trim_range(&whole, 0, whole.len());
    if from == to {
        return Err(
            ConfigError::InvalidFormat(
                String::from_str(
                    "log level filter cannot be empty (e.g., 'info', 'debug', 'trace')",
                ),
            ),
        );
    }
    let filter = value.substring_char(from, to);
    let chars = chars_of(filter);
    let ranges = split_ranges(&chars, ',');
    let ghost directives = split(filter@, ',');
    let mut clean = true;
    let mut k: usize = 0;
    while k < ranges.len()
        invariant
            k <= ranges.len(),
            chars@ == filter@,
            filter@ == trimmed(value@),
            filter@.len() > 0,
            directives == split(filter@, ','),
            ranges_split(ranges@, chars@, ','),
            first_fault(directives, 0) == first_fault(directives, k as int),
            clean == (forall|j: int| 0 <= j < k ==> cuts_cleanly(#[trigger] directives[j])),
            forall|j: int| 0 <= j < k ==> names_no_value(#[trigger] directives[j]),
        decreases ranges.len() - k,
    {
        let (lo, hi) = ranges[k];
        match check_directive(filter, &chars, lo, hi) {
            Some(message) => {
                return Err(ConfigError::InvalidFormat(message));
            },
            None => {},
        }
        proof {
            lemma_faultless_names_no_value(directives[k as int]);
        }
        let here = directive_cuts_cleanly(&chars, lo, hi);
        clean = clean && here;
        k = k + 1;
    }
    Ok((filter.to_owned(), clean))
}

/// Keeps a filter of good form where its own parser accepted it.
pub fn log_filter_from_verdict(filter: String, accepted: bool) -> (r: Result<String, ConfigError>)
    ensures
        text_outcome(r) == filter_verdict(filter@, accepted),
{
    if accepted {
        Ok(filter)
    } else {
        let mut message = String::from_str("invalid log level filter: '");
        message.append(filter.as_str());
        message.append("' (e.g., 'info', 'debug', 'trace')");
        Err(ConfigError::InvalidFormat(message))
    }
}

/// Reads a log filter: comma-separated directives, each a level or a module
/// with a level, that the filter's own parser accepts as a whole. A filter
/// with a directive that opens with white space and holds both a character
/// outside ASCII and one of the marks `=`, `[`, `]`, `{`, `}` is not handed
/// to that parser, which might cut it inside a character; it is refused as
/// if the parser had.
pub fn parse_rust_log_config(value: &str) -> (r: Result<String, ConfigError>)
    ensures
        text_outcome(r) == log_filter_outcome(value@, env_filter_accepts(trimmed(value@))),
{
    match check_log_filter(value) {
        Ok((filter, safe)) => {
            let accepted = safe && env_filter_parses(filter.as_str());
            log_filter_from_verdict(filter, accepted)
        },
        Err(error) => Err(error),
    }
}

/// An `AppConfig`, with its texts as sequences of characters.
pub struct AppConfigView {
    pub pokeapi_host: Seq<char>,
    pub pokeapi_secure: bool,
    pub fun_translations_host: Seq<char>,
    pub fun_translations_secure: bool,
    pub port: u16,
    pub rust_log: Seq<char>,
}

impl View for AppConfig {
    type V = AppConfigView;

    open spec fn view(&self) -> AppConfigView {
        AppConfigView {
            pokeapi_host: self.pokeapi_host@,
            pokeapi_secure: self.pokeapi_secure,
            fun_translations_host: self.fun_translations_host@,
            fun_translations_secure: self.fun_translations_secure,
            port: self.port,
            rust_log: self.rust_log@,
        }
    }
}

/// A result that holds a configuration, with both sides as views.
pub open spec fn config_outcome(r: Result<AppConfig, ConfigError>) -> Result<
    AppConfigView,
    ConfigErrorView,
> {
    match r {
        Ok(config) => Ok(config@),
        Err(error) => Err(error@),
    }
}

/// The error of a result, as a list of one, or of none where there is none.
pub open spec fn fault_of<T>(r: Result<T, ConfigErrorView>) -> Seq<ConfigErrorView> {
    match r {
        Ok(_) => Seq::empty(),
        Err(error) => seq![error],
    }
}

/// What the six settings come to together: a configuration where each of
/// them is good, and otherwise every error among them, in the order of the
/// two hosts, the two switches, the port and the log filter.
pub open spec fn assembled(
    pokeapi_host: Result<Seq<char>, ConfigErrorView>,
    fun_translations_host: Result<Seq<char>, ConfigErrorView>,
    pokeapi_secure: Result<bool, ConfigErrorView>,
    fun_translations_secure: Result<bool, ConfigErrorView>,
    port: Result<u16, ConfigErrorView>,
    rust_log: Result<Seq<char>, ConfigErrorView>,
) -> Result<AppConfigView, ConfigErrorView> {
    if pokeapi_host is Ok && fun_translations_host is Ok && pokeapi_secure is Ok
        && fun_translations_secure is Ok && port is Ok && rust_log is Ok {
        Ok(
            AppConfigView {
                pokeapi_host: pokeapi_host->Ok_0,
                pokeapi_secure: pokeapi_secure->Ok_0,
                fun_translations_host: fun_translations_host->Ok_0,
                fun_translations_secure: fun_translations_secure->Ok_0,
                port: port->Ok_0,
                rust_log: rust_log->Ok_0,
            },
        )
    } else {
        Err(
            ConfigErrorView::Multiple(
                fault_of(pokeapi_host) + fault_of(fun_translations_host) + fault_of(pokeapi_secure)
                    + fault_of(fun_translations_secure) + fault_of(port) + fault_of(rust_log),
            ),
        )
    }
}

/// Moves the error of `r`, if it has one, to the end of `errors`.
fn collect_fault<T>(errors: &mut Vec<ConfigError>, r: Result<T, ConfigError>) -> (value: Option<T>)
    ensures
        views_of(final(errors)@) == views_of(old(errors)@) + fault_of(outcome(r)),
        value is Some == r is Ok,
        value matches Some(v) ==> r == Ok::<T, ConfigError>(v),
{
    match r {
        Ok(v) => Some(v),
        Err(error) => {
            errors.push(error);
            None
        },
    }
}

/// Puts the six settings together, or gathers what is wrong with them.
pub fn assemble(
    pokeapi_host: Result<String, ConfigError>,
    fun_translations_host: Result<String, ConfigError>,
    pokeapi_secure: Result<bool, ConfigError>,
    fun_translations_secure: Result<bool, ConfigError>,
    port: Result<u16, ConfigError>,
    rust_log: Result<String, ConfigError>,
) -> (r: Result<AppConfig, ConfigError>)
    ensures
        config_outcome(r) == assembled(
            text_outcome(pokeapi_host),
            text_outcome(fun_translations_host),
            outcome(pokeapi_secure),
            outcome(fun_translations_secure),
            outcome(port),
            text_outcome(rust_log),
        ),
{
    let ghost faults = fault_of(text_outcome(pokeapi_host)) + fault_of(
        text_outcome(fun_translations_host),
    ) + fault_of(outcome(pokeapi_secure)) + fault_of(outcome(fun_translations_secure)) + fault_of(
        outcome(port),
    ) + fault_of(text_outcome(rust_log));
    let mut errors: Vec<ConfigError> = Vec::new();
    let pokeapi_host = collect_fault(&mut errors, pokeapi_host);
    let fun_translations_host = collect_fault(&mut errors, fun_translations_host);
    let pokeapi_secure = collect_fault(&mut errors, pokeapi_secure);
    let fun_translations_secure = collect_fault(&mut errors, fun_translations_secure);
    let port = collect_fault(&mut errors, port);
    let rust_log = collect_fault(&mut errors, rust_log);
    match (
        pokeapi_host,
        fun_translations_host,
        pokeapi_secure,
        fun_translations_secure,
        port,
        rust_log,
    ) {
        (
            Some(pokeapi_host),
            Some(fun_translations_host),
            Some(pokeapi_secure),
            Some(fun_translations_secure),
            Some(port),
            Some(rust_log),
        ) => Ok(
            AppConfig {
                pokeapi_host,
                pokeapi_secure,
                fun_translations_host,
                fun_translations_secure,
                port,
                rust_log,
            },
        ),
        _ => {
            let error = ConfigError::Multiple(errors);
            assert(error@->Multiple_0 =~= faults);
            Err(error)
        },
    }
}

/// The value set for an option: the command line's, or else the
/// environment's.
pub open spec fn chosen<C: ConfigParser, E: ConfigParser>(
    cli: &C,
    env: &E,
    descriptor: ConfigDescriptor,
) -> Option<Seq<char>> {
    match cli.value_of(&descriptor) {
        Some(value) => Some(value),
        None => env.value_of(&descriptor),
    }
}

/// What becomes of a host: it must be set, and must have the form of a host
/// name.
pub open spec fn host_setting(raw: Option<Seq<char>>, name: Seq<char>) -> Result<
    Seq<char>,
    ConfigErrorView,
> {
    match raw {
        Some(host) => host_outcome(host, name, regex_search(HOST_PATTERN@, host)),
        None => Err(ConfigErrorView::MissingRequired(name)),
    }
}

/// What becomes of a switch: on where it is not set.
pub open spec fn switch_setting(raw: Option<Seq<char>>, name: Seq<char>) -> Result<
    bool,
    ConfigErrorView,
> {
    match raw {
        Some(value) => bool_outcome(lowercase_of(value), value, name),
        None => Ok(true),
    }
}

/// What becomes of the port: the default where it is not set.
pub open spec fn port_setting(raw: Option<Seq<char>>, name: Seq<char>) -> Result<
    u16,
    ConfigErrorView,
> {
    match raw {
        Some(value) => port_outcome(value, name),
        None => Ok(DEFAULT_PORT_NUMBER),
    }
}

/// What becomes of the log filter: the default where it is not set.
pub open spec fn log_setting(raw: Option<Seq<char>>) -> Result<Seq<char>, ConfigErrorView> {
    match raw {
        Some(value) => log_filter_outcome(value, env_filter_accepts(trimmed(value))),
        None => Ok(DEFAULT_RUST_LOG@),
    }
}

/// The configuration that two sources of values come to.
pub open spec fn loaded<C: ConfigParser, E: ConfigParser>(cli: &C, env: &E) -> Result<
    AppConfigView,
    ConfigErrorView,
> {
    assembled(
        host_setting(
            chosen(cli, env, ConfigDescriptor::pokeapi_host()),
            ConfigDescriptor::pokeapi_host().name@,
        ),
        host_setting(
            chosen(cli, env, ConfigDescriptor::fun_translations_host()),
            ConfigDescriptor::fun_translations_host().name@,
        ),
        switch_setting(
            chosen(cli, env, ConfigDescriptor::pokeapi_secure()),
            ConfigDescriptor::pokeapi_secure().name@,
        ),
        switch_setting(
            chosen(cli, env, ConfigDescriptor::fun_translations_secure()),
            ConfigDescriptor::fun_translations_secure().name@,
        ),
        port_setting(chosen(cli, env, ConfigDescriptor::port()), ConfigDescriptor::port().name@),
        log_setting(chosen(cli, env, ConfigDescriptor::rust_log())),
    )
}

/// Looks an option up on the command line, then in the environment.
fn lookup<C: ConfigParser, E: ConfigParser>(cli: &C, env: &E, descriptor: &ConfigDescriptor) -> (raw:
    Option<String>)
    ensures
        text_or_none(raw) == chosen(cli, env, *descriptor),
{
    match cli.parse(descriptor) {
        Some(value) => Some(value),
        None => env.parse(descriptor),
    }
}

/// The default port, as it is written, reads as the default port.
pub proof fn default_port_is_written_out()
    ensures
        reads_as_u16(DEFAULT_PORT@) == Some(DEFAULT_PORT_NUMBER),
        port_outcome(DEFAULT_PORT@, ConfigDescriptor::port().name@) == Ok::<u16, ConfigErrorView>(
            DEFAULT_PORT_NUMBER,
        ),
{
    reveal_strlit("5000");
    reveal_with_fuel(decimal, 5);
}

impl AppConfig {
    /// Reads the configuration from the command line and the environment.
    /// For each option the command line goes first. The two hosts must be
    /// set; a switch that is not set is on, and the port and the log filter
    /// have defaults. Every value is checked, and all that is wrong is
    /// reported together.
    pub fn load<C: ConfigParser, E: ConfigParser>(cli: &C, env: &E) -> (r: Result<
        AppConfig,
        ConfigError,
    >)
        ensures
            config_outcome(r) == loaded(cli, env),
    {
        let pokeapi_host = {
            let descriptor = ConfigDescriptor::pokeapi_host();
            match lookup(cli, env, &descriptor) {
                Some(host) => Self::validate_host(host, descriptor.name),
                None => Err(ConfigError::MissingRequired(descriptor.name.to_owned())),
            }
        };
        let pokeapi_secure = {
            let descriptor = ConfigDescriptor::pokeapi_secure();
            match lookup(cli, env, &descriptor) {
                Some(value) => parse_bool_config(value.as_str(), descriptor.name),
                None => Ok(true),
            }
        };
        let fun_translations_host = {
            let descriptor = ConfigDescriptor::fun_translations_host();
            match lookup(cli, env, &descriptor) {
                Some(host) => Self::validate_host(host, descriptor.name),
                None => Err(ConfigError::MissingRequired(descriptor.name.to_owned())),
            }
        };
        let fun_translations_secure = {
            let descriptor = ConfigDescriptor::fun_translations_secure();
            match lookup(cli, env, &descriptor) {
                Some(value) => parse_bool_config(value.as_str(), descriptor.name),
                None => Ok(true),
            }
        };
        let port = {
            let descriptor = ConfigDescriptor::port();
            match lookup(cli, env, &descriptor) {
                Some(value) => parse_port_config(value.as_str(), descriptor.name),
                None => Ok(DEFAULT_PORT_NUMBER),
            }
        };
        let rust_log = {
            let descriptor = ConfigDescriptor::rust_log();
            match lookup(cli, env, &descriptor) {
                Some(value) => parse_rust_log_config(value.as_str()),
                None => Ok(DEFAULT_RUST_LOG.to_owned()),
            }
        };
        assemble(
            pokeapi_host,
            fun_translations_host,
            pokeapi_secure,
            fun_translations_secure,
            port,
            rust_log,
        )
    }
}

/// How a switch is written out.
pub open spec fn bool_text(b: bool) -> Seq<char> {
    if b {
        "true"@
    } else {
        "false"@
    }
}

/// What opens the usage text.
pub open spec fn usage_heading() -> Seq<char> {
    "\nconfiguration options:\n======================\n\n"@
}

/// What the usage text says of one option, given its name in capitals: the
/// name, the description, the flag and the variable, then whether it is
/// mandatory and what its default is, where either is known, and an empty
/// line.
pub open spec fn usage_entry(descriptor: ConfigDescriptor, raised: Seq<char>) -> Seq<char> {
    "  "@ + raised + ":\n"@ + "    description: "@ + descriptor.description@ + "\n"@
        + "    cli arg: "@ + descriptor.cli_arg_name@ + "\n"@ + "    env var: "@
        + descriptor.env_var_name@ + "\n"@ + (match descriptor.mandatory {
        Some(mandatory) => "    mandatory: "@ + bool_text(mandatory) + "\n"@,
        None => Seq::empty(),
    }) + (match descriptor.default_value {
        Some(value) => "    default value: "@ + value@ + "\n"@,
        None => Seq::empty(),
    }) + "\n"@
}

/// What the usage text says of a list of options, one after the other.
pub open spec fn usage_entries(descriptors: Seq<ConfigDescriptor>) -> Seq<char>
    decreases descriptors.len(),
{
    if descriptors.len() == 0 {
        Seq::empty()
    } else {
        usage_entries(descriptors.drop_last()) + usage_entry(
            descriptors.last(),
            uppercase_of(descriptors.last().name@),
        )
    }
}

impl ConfigDescriptor {
    /// What the usage text says of this option, given its name in capitals.
    pub fn usage_entry(&self, raised: &str) -> (text: String)
        ensures
            text@ == usage_entry(*self, raised@),
    {
        let mut text = String::from_str("  ");
        text.append(raised);
        text.append(":\n");
        text.append("    description: ");
        text.append(self.description);
        text.append("\n");
        text.append("    cli arg: ");
        text.append(self.cli_arg_name);
        text.append("\n");
        text.append("    env var: ");
        text.append(self.env_var_name);
        text.append("\n");
        match self.mandatory {
            Some(mandatory) => {
                text.append("    mandatory: ");
                text.append(if mandatory { "true" } else { "false" });
                text.append("\n");
            },
            None => {},
        }
        match self.default_value {
            Some(value) => {
                text.append("    default value: ");
                text.append(value);
                text.append("\n");
            },
            None => {},
        }
        text.append("\n");
        text
    }

    /// The usage text: a heading, then every option.
    pub fn usage() -> (text: String)
        ensures
            text@ == usage_heading() + usage_entries(Self::all_spec()),
    {
        let all = Self::all();
        let mut text = String::from_str("\nconfiguration options:\n======================\n\n");
        let mut i: usize = 0;
        while i < 6
            invariant
                i <= 6,
                all@ == Self::all_spec(),
                text@ == usage_heading() + usage_entries(all@.take(i as int)),
            decreases 6 - i,
        {
            let raised = to_uppercase(all[i].name);
            let entry = all[i].usage_entry(raised.as_str());
            let ghost now = all@.take(i + 1);
            assert(now.drop_last() =~= all@.take(i as int));
            text.append(entry.as_str());
            i = i + 1;
        }
        assert(all@.take(6) =~= all@);
        text
    }
}

} // verus!
