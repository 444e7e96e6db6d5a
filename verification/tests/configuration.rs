use umbra::cmdline::{
    check_option_sets, cmd_list_str, cmd_set_specified_all_or_nothing, log_level, missing_options,
    parse_args, ArgValues, ConfigError, LogLevel, OptionFlags, OptionSet,
};
use umbra::config::{
    parse_port, HTTPSConfig, PortError, PortsError, ProtoPorts, Protocol, UmbraOptions,
};
use umbra::listener::{listener_plan, Endpoint, ListenerPlan};
use umbra::proxy::Error;
use umbra::text::IpAddress;

const ANY: IpAddress = IpAddress::V4 { octets: [0, 0, 0, 0] };
const LOCAL: IpAddress = IpAddress::V4 { octets: [127, 0, 0, 1] };

fn no_args() -> ArgValues<'static> {
    ArgValues {
        http_listen_port: None,
        http_connect_port: None,
        https_listen_port: None,
        https_connect_port: None,
        tls_cert: None,
        tls_key: None,
        listen_ip: ANY,
        connect_ip: LOCAL,
        config: b"cfg".to_vec(),
    }
}

#[test]
fn port_numbers() {
    assert_eq!(parse_port(b"80"), Ok(80));
    assert_eq!(parse_port(b"+80"), Ok(80));
    assert_eq!(parse_port(b"00080"), Ok(80));
    assert_eq!(parse_port(b"1"), Ok(1));
    assert_eq!(parse_port(b"65535"), Ok(65535));
}

#[test]
fn texts_that_are_no_port() {
    assert_eq!(parse_port(b""), Err(PortError::Empty));
    assert_eq!(parse_port(b"+"), Err(PortError::InvalidDigit));
    assert_eq!(parse_port(b"-1"), Err(PortError::InvalidDigit));
    assert_eq!(parse_port(b"8a"), Err(PortError::InvalidDigit));
    assert_eq!(parse_port(b" 80"), Err(PortError::InvalidDigit));
    assert_eq!(parse_port(b"80 "), Err(PortError::InvalidDigit));
    assert_eq!(parse_port(b"65536"), Err(PortError::TooLarge));
    assert_eq!(parse_port(b"99999999999999999999999"), Err(PortError::TooLarge));
    assert_eq!(parse_port(b"0"), Err(PortError::Zero));
    assert_eq!(parse_port(b"+000"), Err(PortError::Zero));
}

#[test]
fn port_pairs() {
    assert_eq!(ProtoPorts::new(None, None), Ok(None));
    assert_eq!(
        ProtoPorts::new(Some("8080"), Some("80")),
        Ok(Some(ProtoPorts { listen: 8080, connect: 80 }))
    );
    assert_eq!(ProtoPorts::new(Some("8080"), None), Err(PortsError::Unpaired));
    assert_eq!(ProtoPorts::new(None, Some("80")), Err(PortsError::Unpaired));
    assert_eq!(
        ProtoPorts::new(Some("http"), Some("80")),
        Err(PortsError::Listen(PortError::InvalidDigit))
    );
    assert_eq!(
        ProtoPorts::new(Some("8080"), Some("70000")),
        Err(PortsError::Connect(PortError::TooLarge))
    );
    assert_eq!(
        ProtoPorts::new(Some(""), Some("x")),
        Err(PortsError::Listen(PortError::Empty))
    );
    assert_eq!(
        ProtoPorts::new(Some("8080"), Some("0")),
        Err(PortsError::Connect(PortError::Zero))
    );
}

#[test]
fn log_levels() {
    assert_eq!(log_level(0, 0), LogLevel::Warn);
    assert_eq!(log_level(1, 0), LogLevel::Info);
    assert_eq!(log_level(2, 0), LogLevel::Debug);
    assert_eq!(log_level(3, 0), LogLevel::Trace);
    assert_eq!(log_level(40, 0), LogLevel::Trace);
    assert_eq!(log_level(0, 1), LogLevel::Error);
    assert_eq!(log_level(0, 2), LogLevel::Off);
    assert_eq!(log_level(0, 9), LogLevel::Off);
    assert_eq!(log_level(5, 4), LogLevel::Info);
    assert_eq!(log_level(4, 4), LogLevel::Warn);
    assert_eq!(log_level(usize::MAX, 0), LogLevel::Trace);
    assert_eq!(log_level(0, usize::MAX), LogLevel::Off);
}

#[test]
fn option_lists() {
    assert_eq!(cmd_list_str(&[]), "");
    assert_eq!(cmd_list_str(&["config"]), "--config");
    assert_eq!(
        cmd_list_str(&["http-listen-port", "http-connect-port"]),
        "--http-listen-port, --http-connect-port"
    );
    assert_eq!(cmd_list_str(&["a", "b", "c"]), "--a, --b, --c");
}

#[test]
fn option_sets_are_whole_or_absent() {
    assert!(cmd_set_specified_all_or_nothing(&[]));
    assert!(cmd_set_specified_all_or_nothing(&[true]));
    assert!(cmd_set_specified_all_or_nothing(&[false, false]));
    assert!(cmd_set_specified_all_or_nothing(&[true, true, true, true]));
    assert!(!cmd_set_specified_all_or_nothing(&[true, false]));
    assert!(!cmd_set_specified_all_or_nothing(&[false, false, true, false]));
}

#[test]
fn plain_configuration() {
    let mut args = no_args();
    args.http_listen_port = Some("8080");
    args.http_connect_port = Some("80");
    assert_eq!(
        parse_args(args),
        Ok(UmbraOptions {
            http_ports: Some(ProtoPorts { listen: 8080, connect: 80 }),
            listen_ip: ANY,
            connect_ip: LOCAL,
            https: None,
            _config: b"cfg".to_vec(),
        })
    );
}

#[test]
fn tls_configuration() {
    let mut args = no_args();
    args.https_listen_port = Some("8443");
    args.https_connect_port = Some("8081");
    args.tls_cert = Some(b"cert".to_vec());
    args.tls_key = Some(b"key".to_vec());
    let options = parse_args(args).unwrap();
    assert_eq!(options.http_ports, None);
    assert_eq!(
        options.https,
        Some(HTTPSConfig {
            ports: ProtoPorts { listen: 8443, connect: 8081 },
            _tls_cert: b"cert".to_vec(),
            _tls_key: b"key".to_vec(),
        })
    );
    assert_eq!(options.ports(Protocol::Https), Some(ProtoPorts { listen: 8443, connect: 8081 }));
    assert_eq!(options.ports(Protocol::Http), None);
}

#[test]
fn command_lines_that_give_no_configuration() {
    assert_eq!(parse_args(no_args()), Err(ConfigError::NoProtocol));

    let mut args = no_args();
    args.http_connect_port = Some("80");
    assert_eq!(parse_args(args), Err(ConfigError::NoProtocol));

    let mut args = no_args();
    args.http_listen_port = Some("8080");
    assert_eq!(parse_args(args), Err(ConfigError::IncompleteSet(OptionSet::Http)));

    let mut args = no_args();
    args.https_listen_port = Some("8443");
    args.https_connect_port = Some("8081");
    args.tls_cert = Some(Vec::new());
    assert_eq!(parse_args(args), Err(ConfigError::IncompleteSet(OptionSet::Https)));

    let mut args = no_args();
    args.http_listen_port = Some("8080");
    args.http_connect_port = Some("80");
    args.tls_key = Some(Vec::new());
    assert_eq!(parse_args(args), Err(ConfigError::IncompleteSet(OptionSet::Https)));

    let mut args = no_args();
    args.http_listen_port = Some("8080");
    args.http_connect_port = Some("eighty");
    assert_eq!(
        parse_args(args),
        Err(ConfigError::Ports(OptionSet::Http, PortsError::Connect(PortError::InvalidDigit)))
    );

    let mut args = no_args();
    args.https_listen_port = Some("65536");
    args.https_connect_port = Some("8081");
    args.tls_cert = Some(Vec::new());
    args.tls_key = Some(Vec::new());
    assert_eq!(
        parse_args(args),
        Err(ConfigError::Ports(OptionSet::Https, PortsError::Listen(PortError::TooLarge)))
    );
}

#[test]
fn only_the_configured_listeners_are_planned() {
    let options = UmbraOptions {
        http_ports: Some(ProtoPorts { listen: 8080, connect: 80 }),
        listen_ip: ANY,
        connect_ip: LOCAL,
        https: None,
        _config: Vec::new(),
    };
    assert_eq!(
        listener_plan(&options),
        Ok(ListenerPlan { http: Some(Endpoint { ip: ANY, port: 8080 }), https: None })
    );

    let both = UmbraOptions {
        https: Some(HTTPSConfig {
            ports: ProtoPorts { listen: 8443, connect: 8081 },
            _tls_cert: Vec::new(),
            _tls_key: Vec::new(),
        }),
        ..options.clone()
    };
    assert_eq!(
        listener_plan(&both),
        Ok(ListenerPlan {
            http: Some(Endpoint { ip: ANY, port: 8080 }),
            https: Some(Endpoint { ip: ANY, port: 8443 }),
        })
    );
}

#[test]
fn no_listener_without_a_mapping() {
    let options = UmbraOptions {
        http_ports: None,
        listen_ip: ANY,
        connect_ip: LOCAL,
        https: None,
        _config: Vec::new(),
    };
    assert_eq!(listener_plan(&options), Err(Error::ProtocolNotConfigured));
}

#[test]
fn missing_options_are_named_in_order() {
    let names = ["https-listen-port", "https-connect-port", "tls-cert", "tls-key"];
    assert_eq!(
        missing_options(&names, &[true, false, true, false]),
        vec!["https-connect-port", "tls-key"]
    );
    assert_eq!(missing_options(&names, &[true, true, true, true]), Vec::<&str>::new());
    assert_eq!(missing_options(&names, &[false, false, false, false]), names.to_vec());
    assert_eq!(missing_options(&names, &[true, true]), vec!["tls-cert", "tls-key"]);
    assert_eq!(missing_options(&[], &[true]), Vec::<&str>::new());
    assert_eq!(
        cmd_list_str(&missing_options(&names, &[false, true, true, false])),
        "--https-listen-port, --tls-key"
    );
}

#[test]
fn option_sets_are_checked_in_order() {
    let none = OptionFlags {
        http_listen_port: false,
        http_connect_port: false,
        https_listen_port: false,
        https_connect_port: false,
        tls_cert: false,
        tls_key: false,
    };
    assert_eq!(check_option_sets(none), Err(ConfigError::NoProtocol));
    let plain = OptionFlags { http_listen_port: true, http_connect_port: true, ..none };
    assert_eq!(check_option_sets(plain), Ok(()));
    let half = OptionFlags { http_listen_port: true, ..none };
    assert_eq!(check_option_sets(half), Err(ConfigError::IncompleteSet(OptionSet::Http)));
    let both_half = OptionFlags { http_listen_port: true, tls_key: true, ..none };
    assert_eq!(check_option_sets(both_half), Err(ConfigError::IncompleteSet(OptionSet::Http)));
    let tls_half = OptionFlags { tls_cert: true, ..plain };
    assert_eq!(check_option_sets(tls_half), Err(ConfigError::IncompleteSet(OptionSet::Https)));
    let tls = OptionFlags {
        https_listen_port: true,
        https_connect_port: true,
        tls_cert: true,
        tls_key: true,
        ..none
    };
    assert_eq!(check_option_sets(tls), Ok(()));
}
