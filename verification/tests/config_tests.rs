use pokedex::config::{
    parse_bool_config, parse_port_config, parse_rust_log_config, AppConfig, CliParser,
    ConfigDescriptor, ConfigError, ConfigParser, EnvParser,
};

fn validate_hostname_for_test(host: &str) -> Result<String, ConfigError> {
    AppConfig::validate_host(host.to_string(), "test")
}

fn sample_config(host: &str, secure: bool) -> AppConfig {
    AppConfig {
        pokeapi_host: host.to_string(),
        pokeapi_secure: secure,
        fun_translations_host: host.to_string(),
        fun_translations_secure: secure,
        port: 5000,
        rust_log: "info".to_string(),
    }
}

// Boolean Configuration Tests
#[test]
fn parse_bool_config_accepts_true_variants() {
    assert!(parse_bool_config("true", "test").unwrap());
    assert!(parse_bool_config("True", "test").unwrap());
    assert!(parse_bool_config("TRUE", "test").unwrap());
    assert!(parse_bool_config("tRuE", "test").unwrap());
}

#[test]
fn parse_bool_config_accepts_false_variants() {
    assert!(!parse_bool_config("false", "test").unwrap());
    assert!(!parse_bool_config("False", "test").unwrap());
    assert!(!parse_bool_config("FALSE", "test").unwrap());
    assert!(!parse_bool_config("fAlSe", "test").unwrap());
}

#[test]
fn parse_bool_config_rejects_invalid_values() {
    assert!(parse_bool_config("yes", "test").is_err());
    assert!(parse_bool_config("no", "test").is_err());
    assert!(parse_bool_config("1", "test").is_err());
    assert!(parse_bool_config("0", "test").is_err());
    assert!(parse_bool_config("on", "test").is_err());
    assert!(parse_bool_config("off", "test").is_err());
    assert!(parse_bool_config("", "test").is_err());
    assert!(parse_bool_config("t", "test").is_err());
    assert!(parse_bool_config("f", "test").is_err());
}

#[test]
fn parse_bool_config_error_message_includes_value() {
    let result = parse_bool_config("invalid", "test_field");
    assert!(result.is_err());
    let err_msg = result.unwrap_err().to_string();
    assert!(err_msg.contains("invalid"));
    assert!(err_msg.contains("test_field"));
    assert!(err_msg.contains("true"));
    assert!(err_msg.contains("false"));
}

// Port Configuration Tests
#[test]
fn parse_port_config_accepts_valid_ports() {
    assert_eq!(parse_port_config("5000", "test").unwrap(), 5000);
    assert_eq!(parse_port_config("1", "test").unwrap(), 1);
    assert_eq!(parse_port_config("65535", "test").unwrap(), 65535);
    assert_eq!(parse_port_config("8080", "test").unwrap(), 8080);
    assert_eq!(parse_port_config("3000", "test").unwrap(), 3000);
    assert_eq!(parse_port_config("443", "test").unwrap(), 443);
    assert_eq!(parse_port_config("80", "test").unwrap(), 80);
}

#[test]
fn parse_port_config_rejects_zero() {
    let result = parse_port_config("0", "test");
    assert!(result.is_err());
    let err_msg = result.unwrap_err().to_string();
    assert!(err_msg.contains("0"));
    assert!(err_msg.contains("1-65535"));
}

#[test]
fn parse_port_config_rejects_invalid_numbers() {
    assert!(parse_port_config("abc", "test").is_err());
    assert!(parse_port_config("-1", "test").is_err());
    assert!(parse_port_config("99999", "test").is_err());
    assert!(parse_port_config("65536", "test").is_err());
    assert!(parse_port_config("70000", "test").is_err());
    assert!(parse_port_config("", "test").is_err());
    assert!(parse_port_config(" ", "test").is_err());
    assert!(parse_port_config("5000a", "test").is_err());
    assert!(parse_port_config("50.00", "test").is_err());
}

#[test]
fn parse_port_config_error_messages_are_descriptive() {
    let result = parse_port_config("0", "port");
    assert!(result.is_err());
    assert!(result.unwrap_err().to_string().contains("1-65535"));

    let result = parse_port_config("abc", "port");
    assert!(result.is_err());
    assert!(result.unwrap_err().to_string().contains("valid number"));
}

// Hostname Validation Tests
#[test]
fn validate_host_accepts_valid_hostnames() {
    assert!(validate_hostname_for_test("example.com").is_ok());
    assert!(validate_hostname_for_test("sub.example.com").is_ok());
    assert!(validate_hostname_for_test("api.funtranslations.com").is_ok());
    assert!(validate_hostname_for_test("pokeapi.co").is_ok());
    assert!(validate_hostname_for_test("a").is_ok());
    assert!(validate_hostname_for_test("my-server").is_ok());
    assert!(validate_hostname_for_test("test-123").is_ok());
    assert!(validate_hostname_for_test("localhost").is_ok());
    assert!(validate_hostname_for_test("api-v2.example.org").is_ok());
    assert!(validate_hostname_for_test("deep.sub.domain.example.com").is_ok());
}

#[test]
fn validate_host_accepts_hostnames_with_numbers() {
    assert!(validate_hostname_for_test("server1.example.com").is_ok());
    assert!(validate_hostname_for_test("123.456.789.012").is_ok());
    assert!(validate_hostname_for_test("api2.test.co").is_ok());
}

#[test]
fn validate_host_rejects_invalid_hostnames() {
    assert!(validate_hostname_for_test("-example.com").is_err());
    assert!(validate_hostname_for_test("example.com-").is_err());
    assert!(validate_hostname_for_test("example..com").is_err());
    assert!(validate_hostname_for_test("").is_err());
    assert!(validate_hostname_for_test(".example.com").is_err());
    assert!(validate_hostname_for_test("example.com.").is_err());
    assert!(validate_hostname_for_test("exam ple.com").is_err());
    assert!(validate_hostname_for_test("example_.com").is_err());
    assert!(validate_hostname_for_test("exam$ple.com").is_err());
}

#[test]
fn validate_host_error_message_includes_hostname() {
    let result = validate_hostname_for_test("-invalid.com");
    assert!(result.is_err());
    let err_msg = result.unwrap_err().to_string();
    assert!(err_msg.contains("-invalid.com"));
}

#[test]
fn validate_host_returns_original_hostname_on_success() {
    let hostname = "example.com";
    let result = validate_hostname_for_test(hostname);
    assert_eq!(result.unwrap(), hostname);
}

// Rust Log Configuration Tests
#[test]
fn parse_rust_log_config_accepts_valid_levels() {
    assert!(parse_rust_log_config("info").is_ok());
    assert!(parse_rust_log_config("debug").is_ok());
    assert!(parse_rust_log_config("trace").is_ok());
    assert!(parse_rust_log_config("warn").is_ok());
    assert!(parse_rust_log_config("error").is_ok());
}

#[test]
fn parse_rust_log_config_accepts_module_filters() {
    assert!(parse_rust_log_config("pokemon_api=debug").is_ok());
    assert!(parse_rust_log_config("pokemon_api::client=trace,info").is_ok());
    assert!(parse_rust_log_config("pokemon_api=debug,translator=info").is_ok());
}

#[test]
fn parse_rust_log_config_rejects_invalid_filters() {
    assert!(parse_rust_log_config("invalid_level").is_err());
    assert!(parse_rust_log_config("").is_err());
    assert!(parse_rust_log_config("123").is_err());
}

#[test]
fn parse_rust_log_config_error_message_is_helpful() {
    let result = parse_rust_log_config("invalid");
    assert!(result.is_err());
    let err_msg = result.unwrap_err().to_string();
    assert!(err_msg.contains("invalid"));
    assert!(err_msg.contains("info") || err_msg.contains("debug") || err_msg.contains("trace"));
}

#[test]
fn parse_rust_log_config_returns_original_value() {
    let filter = "info";
    let result = parse_rust_log_config(filter);
    assert_eq!(result.unwrap(), filter);

    let complex_filter = "pokemon_api=debug,info";
    let result = parse_rust_log_config(complex_filter);
    assert_eq!(result.unwrap(), complex_filter);
}

// URL Generation Tests
#[test]
fn pokeapi_base_url_uses_https_when_secure() {
    let config = AppConfig {
        pokeapi_host: "pokeapi.co".to_string(),
        pokeapi_secure: true,
        fun_translations_host: "api.funtranslations.com".to_string(),
        fun_translations_secure: true,
        port: 5000,
        rust_log: "info".to_string(),
    };
    assert_eq!(config.pokeapi_base_url(), "https://pokeapi.co/api/v2");
}

#[test]
fn pokeapi_base_url_uses_http_when_not_secure() {
    let config = sample_config("localhost", false);
    assert_eq!(config.pokeapi_base_url(), "http://localhost/api/v2");
}

#[test]
fn fun_translations_base_url_uses_https_when_secure() {
    let config = AppConfig {
        pokeapi_host: "pokeapi.co".to_string(),
        pokeapi_secure: true,
        fun_translations_host: "api.funtranslations.com".to_string(),
        fun_translations_secure: true,
        port: 5000,
        rust_log: "info".to_string(),
    };
    assert_eq!(
        config.fun_translations_base_url(),
        "https://api.funtranslations.com/translate"
    );
}

#[test]
fn fun_translations_base_url_uses_http_when_not_secure() {
    let config = sample_config("localhost", false);
    assert_eq!(
        config.fun_translations_base_url(),
        "http://localhost/translate"
    );
}

// ConfigDescriptor Tests
#[test]
fn config_descriptor_all_array_contains_all_fields() {
    let all = ConfigDescriptor::all();
    assert_eq!(all.len(), 6);

    let names: Vec<&str> = all.iter().map(|d| d.name).collect();
    assert!(names.contains(&"pokeapi host"));
    assert!(names.contains(&"pokeapi secure"));
    assert!(names.contains(&"fun translations host"));
    assert!(names.contains(&"fun translations secure"));
    assert!(names.contains(&"port"));
    assert!(names.contains(&"rust log"));
}

#[test]
fn config_descriptor_mandatory_fields_are_marked() {
    assert_eq!(ConfigDescriptor::pokeapi_host().mandatory, Some(true));
    assert_eq!(
        ConfigDescriptor::fun_translations_host().mandatory,
        Some(true)
    );
    assert_eq!(ConfigDescriptor::port().mandatory, None);
    assert_eq!(ConfigDescriptor::pokeapi_secure().mandatory, None);
}

#[test]
fn config_descriptor_optional_fields_have_defaults() {
    assert!(ConfigDescriptor::pokeapi_secure().default_value.is_some());
    assert!(ConfigDescriptor::fun_translations_secure()
        .default_value
        .is_some());
    assert!(ConfigDescriptor::port().default_value.is_some());
    assert!(ConfigDescriptor::rust_log().default_value.is_some());
}

#[test]
fn config_descriptor_mandatory_fields_have_no_defaults() {
    assert!(ConfigDescriptor::pokeapi_host().default_value.is_none());
    assert!(ConfigDescriptor::fun_translations_host()
        .default_value
        .is_none());
}

// CliParser Tests
#[test]
fn cli_parser_extracts_arguments() {
    let test_parser = CliParser::new(vec![
        "program".to_string(),
        "--port".to_string(),
        "8080".to_string(),
    ]);

    let result = test_parser.parse(&ConfigDescriptor::port());
    assert_eq!(result, Some("8080".to_string()));
}

#[test]
fn cli_parser_returns_none_for_missing_args() {
    let test_parser = CliParser::new(vec!["program".to_string()]);

    let result = test_parser.parse(&ConfigDescriptor::port());
    assert_eq!(result, None);
}

#[test]
fn cli_parser_returns_none_for_wrong_args() {
    let test_parser = CliParser::new(vec![
        "program".to_string(),
        "--other".to_string(),
        "value".to_string(),
    ]);

    let result = test_parser.parse(&ConfigDescriptor::port());
    assert_eq!(result, None);
}

// EnvParser Tests
#[test]
fn env_parser_extracts_environment_variables() {
    let descriptor = ConfigDescriptor {
        cli_arg_name: "--test-port",
        env_var_name: "TEST_PORT",
        description: "Test port",
        name: "test port",
        mandatory: None,
        default_value: None,
    };

    let parser = EnvParser::new(vec![("TEST_PORT".to_string(), "9000".to_string())]);
    let result = parser.parse(&descriptor);

    assert_eq!(result, Some("9000".to_string()));
}

#[test]
fn env_parser_returns_none_for_empty_values() {
    let descriptor = ConfigDescriptor {
        cli_arg_name: "--test-empty",
        env_var_name: "TEST_EMPTY",
        description: "Test empty",
        name: "test empty",
        mandatory: None,
        default_value: None,
    };

    let parser = EnvParser::new(vec![("TEST_EMPTY".to_string(), "".to_string())]);
    let result = parser.parse(&descriptor);

    assert_eq!(result, None);
}

#[test]
fn env_parser_returns_none_for_missing_variables() {
    let descriptor = ConfigDescriptor {
        cli_arg_name: "--test-missing",
        env_var_name: "TEST_MISSING_VAR_THAT_DOES_NOT_EXIST",
        description: "Test missing",
        name: "test missing",
        mandatory: None,
        default_value: None,
    };

    let parser = EnvParser::new(vec![("HOME".to_string(), "/root".to_string())]);
    let result = parser.parse(&descriptor);

    assert_eq!(result, None);
}

// Further port tests
#[test]
fn parse_port_config_reads_signs_and_leading_zeros() {
    assert_eq!(parse_port_config("+80", "port").unwrap(), 80);
    assert_eq!(parse_port_config("00080", "port").unwrap(), 80);
    assert_eq!(parse_port_config("0000000000000000000065535", "port").unwrap(), 65535);
    assert!(parse_port_config("+", "port").is_err());
    assert!(parse_port_config("++80", "port").is_err());
    assert!(parse_port_config("-0", "port").is_err());
    assert!(parse_port_config("80 ", "port").is_err());
    assert!(parse_port_config("8_0", "port").is_err());
    assert!(parse_port_config("٨٠", "port").is_err());
    assert!(parse_port_config("99999999999999999999999999", "port").is_err());
    assert!(parse_port_config("+0", "port").is_err());
    assert!(parse_port_config("000", "port").is_err());
}

#[test]
fn parse_port_config_agrees_with_the_standard_library() {
    for value in [
        "0", "1", "9", "10", "65535", "65536", "655350", "+1", "-1", "", " ", "1 ", "0x10", "+",
        "12a", "a12", "007", "+007", "6553 5",
    ] {
        let expected = value.parse::<u16>().ok().filter(|port| *port > 0);
        assert_eq!(parse_port_config(value, "port").ok(), expected, "{:?}", value);
    }
}

#[test]
fn parse_port_config_says_what_is_wrong() {
    assert_eq!(
        parse_port_config("0", "port").unwrap_err().to_string(),
        "invalid format: invalid port number: 0 (must be 1-65535)"
    );
    assert_eq!(
        parse_port_config("http", "port").unwrap_err().to_string(),
        "invalid format: port must be a valid number: http (expected 1-65535)"
    );
}

#[test]
fn parse_bool_config_says_what_is_wrong() {
    assert_eq!(
        parse_bool_config("Maybe", "pokeapi secure").unwrap_err().to_string(),
        "invalid format: invalid boolean value for pokeapi secure: 'Maybe' (expected 'true' or 'false')"
    );
    assert!(parse_bool_config(" true", "x").is_err());
    assert!(parse_bool_config("true ", "x").is_err());
}

#[test]
fn validate_host_says_what_is_wrong() {
    assert_eq!(
        validate_hostname_for_test("exam ple.com").unwrap_err().to_string(),
        "invalid format: invalid test format: exam ple.com"
    );
    assert!(validate_hostname_for_test(&"a".repeat(63)).is_ok());
    assert!(validate_hostname_for_test(&"a".repeat(64)).is_err());
    assert!(validate_hostname_for_test("example.com\n").is_err());
}

// Further log filter tests
#[test]
fn parse_rust_log_config_trims_the_filter() {
    assert_eq!(parse_rust_log_config("  info \n").unwrap(), "info");
    assert_eq!(
        parse_rust_log_config(" pokedex=debug,warn ").unwrap(),
        "pokedex=debug,warn"
    );
}

#[test]
fn parse_rust_log_config_says_what_is_wrong() {
    assert_eq!(
        parse_rust_log_config("   ").unwrap_err().to_string(),
        "invalid format: log level filter cannot be empty (e.g., 'info', 'debug', 'trace')"
    );
    assert_eq!(
        parse_rust_log_config("info,,debug").unwrap_err().to_string(),
        "invalid format: log level directive segment cannot be empty"
    );
    assert_eq!(
        parse_rust_log_config("info, ,debug").unwrap_err().to_string(),
        "invalid format: log level directive segment cannot be empty"
    );
    assert_eq!(
        parse_rust_log_config("info,").unwrap_err().to_string(),
        "invalid format: log level directive segment cannot be empty"
    );
    assert_eq!(
        parse_rust_log_config("pokedex= loud ").unwrap_err().to_string(),
        "invalid format: invalid log level: 'loud' (expected one of: trace, debug, info, warn, error)"
    );
    assert_eq!(
        parse_rust_log_config("pokedex=").unwrap_err().to_string(),
        "invalid format: invalid log level: '' (expected one of: trace, debug, info, warn, error)"
    );
    assert_eq!(
        parse_rust_log_config("a=b=debug").unwrap_err().to_string(),
        "invalid format: invalid log level: 'b=debug' (expected one of: trace, debug, info, warn, error)"
    );
    assert_eq!(
        parse_rust_log_config("info,INFO").unwrap_err().to_string(),
        "invalid format: invalid global log level: 'INFO' (expected one of: trace, debug, info, warn, error)"
    );
    assert_eq!(
        parse_rust_log_config("off").unwrap_err().to_string(),
        "invalid format: invalid global log level: 'off' (expected one of: trace, debug, info, warn, error)"
    );
    assert_eq!(
        parse_rust_log_config("loud,,").unwrap_err().to_string(),
        "invalid format: invalid global log level: 'loud' (expected one of: trace, debug, info, warn, error)"
    );
}

#[test]
fn parse_rust_log_config_asks_the_filter_parser_last() {
    assert_eq!(
        parse_rust_log_config("pokedex[span=debug").unwrap_err().to_string(),
        "invalid format: invalid log level filter: 'pokedex[span=debug' (e.g., 'info', 'debug', 'trace')"
    );
    assert_eq!(parse_rust_log_config("pokedex[span]=debug").unwrap(), "pokedex[span]=debug");
    assert_eq!(
        parse_rust_log_config("pokedex[span{field}]=debug").unwrap(),
        "pokedex[span{field}]=debug"
    );
    assert_eq!(parse_rust_log_config("é=debug,info").unwrap(), "é=debug,info");
    assert_eq!(
        parse_rust_log_config("debug,\u{3000}info").unwrap(),
        "debug,\u{3000}info"
    );
    assert_eq!(
        parse_rust_log_config("debug,\u{a0} warn\u{2003}").unwrap(),
        "debug,\u{a0} warn"
    );
}

#[test]
fn parse_rust_log_config_keeps_unsafe_directives_from_the_filter_parser() {
    assert_eq!(
        parse_rust_log_config("info, é=debug").unwrap_err().to_string(),
        "invalid format: invalid log level filter: 'info, é=debug' (e.g., 'info', 'debug', 'trace')"
    );
    assert_eq!(
        parse_rust_log_config("info,\u{3000}pokedex=debug").unwrap_err().to_string(),
        "invalid format: invalid log level filter: 'info,\u{3000}pokedex=debug' (e.g., 'info', 'debug', 'trace')"
    );
}

// Loading
fn cli(args: &[&str]) -> CliParser {
    let mut all = vec!["program".to_string()];
    all.extend(args.iter().map(|a| a.to_string()));
    CliParser::new(all)
}

fn env(vars: &[(&str, &str)]) -> EnvParser {
    EnvParser::new(
        vars.iter()
            .map(|(k, v)| (k.to_string(), v.to_string()))
            .collect(),
    )
}

#[test]
fn load_takes_defaults_for_what_is_not_set() {
    let config = AppConfig::load(
        &cli(&["--pokeapi-host", "pokeapi.co"]),
        &env(&[("FUN_TRANSLATIONS_HOST", "api.funtranslations.com")]),
    )
    .unwrap();
    assert_eq!(config.pokeapi_host, "pokeapi.co");
    assert!(config.pokeapi_secure);
    assert_eq!(config.fun_translations_host, "api.funtranslations.com");
    assert!(config.fun_translations_secure);
    assert_eq!(config.port, 5000);
    assert_eq!(config.rust_log, "info");
    assert_eq!(config.pokeapi_base_url(), "https://pokeapi.co/api/v2");
    assert_eq!(
        config.fun_translations_base_url(),
        "https://api.funtranslations.com/translate"
    );
}

#[test]
fn load_prefers_the_command_line() {
    let config = AppConfig::load(
        &cli(&[
            "--pokeapi-host",
            "cli.example",
            "--port",
            "8080",
            "--pokeapi-secure",
            "FALSE",
            "--rust-log",
            " debug ",
        ]),
        &env(&[
            ("POKEAPI_HOST", "env.example"),
            ("FUN_TRANSLATIONS_HOST", "fun.example"),
            ("FUN_TRANSLATIONS_SECURE", "false"),
            ("PORT", "9090"),
            ("RUST_LOG", "trace"),
        ]),
    )
    .unwrap();
    assert_eq!(config.pokeapi_host, "cli.example");
    assert!(!config.pokeapi_secure);
    assert_eq!(config.fun_translations_host, "fun.example");
    assert!(!config.fun_translations_secure);
    assert_eq!(config.port, 8080);
    assert_eq!(config.rust_log, "debug");
}

#[test]
fn load_ignores_variables_set_to_nothing() {
    let result = AppConfig::load(
        &cli(&[]),
        &env(&[("POKEAPI_HOST", ""), ("FUN_TRANSLATIONS_HOST", "fun.example"), ("PORT", "")]),
    );
    match result {
        Err(ConfigError::Multiple(errors)) => {
            assert_eq!(errors.len(), 1);
            assert!(matches!(&errors[0], ConfigError::MissingRequired(name) if name == "pokeapi host"));
        }
        _ => panic!("a host is missing"),
    }
}

#[test]
fn load_reports_every_error_in_order() {
    let result = AppConfig::load(
        &cli(&["--port", "0", "--fun-translations-secure", "yes"]),
        &env(&[("POKEAPI_HOST", "-bad-"), ("RUST_LOG", "loud"), ("POKEAPI_SECURE", "no")]),
    );
    let error = result.unwrap_err();
    assert_eq!(
        error.to_string(),
        "multiple configuration errors:\n\
         \x20 - invalid format: invalid pokeapi host format: -bad-\n\
         \x20 - missing required configuration: fun translations host\n\
         \x20 - invalid format: invalid boolean value for pokeapi secure: 'no' (expected 'true' or 'false')\n\
         \x20 - invalid format: invalid boolean value for fun translations secure: 'yes' (expected 'true' or 'false')\n\
         \x20 - invalid format: invalid port number: 0 (must be 1-65535)\n\
         \x20 - invalid format: invalid global log level: 'loud' (expected one of: trace, debug, info, warn, error)"
    );
    match error {
        ConfigError::Multiple(errors) => assert_eq!(errors.len(), 6),
        _ => panic!("errors are reported together"),
    }
}

#[test]
fn load_reports_a_single_error_as_a_list_too() {
    let result = AppConfig::load(&cli(&["--pokeapi-host", "a.example"]), &env(&[]));
    assert_eq!(
        result.unwrap_err().to_string(),
        "multiple configuration errors:\n  - missing required configuration: fun translations host"
    );
}

#[test]
fn config_errors_are_spelled_out() {
    assert_eq!(
        ConfigError::MissingRequired("port".to_string()).to_string(),
        "missing required configuration: port"
    );
    assert_eq!(
        ConfigError::InvalidFormat("bad".to_string()).to_string(),
        "invalid format: bad"
    );
    assert_eq!(
        ConfigError::Multiple(vec![]).to_string(),
        "multiple configuration errors:\n"
    );
    assert_eq!(
        ConfigError::Multiple(vec![
            ConfigError::InvalidFormat("one".to_string()),
            ConfigError::Multiple(vec![ConfigError::MissingRequired("two".to_string())]),
        ])
        .to_string(),
        "multiple configuration errors:\n  - invalid format: one\n  - multiple configuration errors:\n  - missing required configuration: two"
    );
}

#[test]
fn cli_parser_takes_the_first_pair() {
    let parser = cli(&["--port", "1", "--port", "2"]);
    assert_eq!(parser.parse(&ConfigDescriptor::port()), Some("1".to_string()));
    let parser = cli(&["--port", "--port", "2"]);
    assert_eq!(parser.parse(&ConfigDescriptor::port()), Some("--port".to_string()));
    let parser = cli(&["x", "--port"]);
    assert_eq!(parser.parse(&ConfigDescriptor::port()), None);
    let parser = CliParser::new(vec!["--port".to_string(), "7".to_string()]);
    assert_eq!(parser.parse(&ConfigDescriptor::port()), Some("7".to_string()));
    let parser = CliParser::new(vec![]);
    assert_eq!(parser.parse(&ConfigDescriptor::port()), None);
}

#[test]
fn usage_lists_every_option() {
    let expected = "\nconfiguration options:\n\
======================\n\
\n\
\x20 POKEAPI HOST:\n\
\x20   description: PokéAPI hostname (e.g., \"pokeapi.co\")\n\
\x20   cli arg: --pokeapi-host\n\
\x20   env var: POKEAPI_HOST\n\
\x20   mandatory: true\n\
\n\
\x20 FUN TRANSLATIONS HOST:\n\
\x20   description: fun translations API hostname (e.g., \"api.funtranslations.com\")\n\
\x20   cli arg: --fun-translations-host\n\
\x20   env var: FUN_TRANSLATIONS_HOST\n\
\x20   mandatory: true\n\
\n\
\x20 PORT:\n\
\x20   description: server listening port (1-65535)\n\
\x20   cli arg: --port\n\
\x20   env var: PORT\n\
\x20   default value: 5000\n\
\n\
\x20 POKEAPI SECURE:\n\
\x20   description: use secure connection for PokéAPI (true/false)\n\
\x20   cli arg: --pokeapi-secure\n\
\x20   env var: POKEAPI_SECURE\n\
\x20   default value: true\n\
\n\
\x20 FUN TRANSLATIONS SECURE:\n\
\x20   description: use secure connection for fun translations API (true/false)\n\
\x20   cli arg: --fun-translations-secure\n\
\x20   env var: FUN_TRANSLATIONS_SECURE\n\
\x20   default value: true\n\
\n\
\x20 RUST LOG:\n\
\x20   description: tracing log level (e.g., \"info\", \"debug\", etc.)\n\
\x20   cli arg: --rust-log\n\
\x20   env var: RUST_LOG\n\
\x20   default value: info\n\
\n";
    assert_eq!(ConfigDescriptor::usage(), expected);
}

#[test]
fn usage_entry_shows_what_is_known() {
    let descriptor = ConfigDescriptor {
        cli_arg_name: "--depth",
        env_var_name: "DEPTH",
        description: "how deep",
        name: "depth",
        mandatory: Some(false),
        default_value: Some("3"),
    };
    assert_eq!(
        descriptor.usage_entry("DEPTH"),
        "  DEPTH:\n    description: how deep\n    cli arg: --depth\n    env var: DEPTH\n    mandatory: false\n    default value: 3\n\n"
    );
}
