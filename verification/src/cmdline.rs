//! What the command line means, once its values are in hand: the log level,
//! the option sets that go together, and the configuration they add up to.

use vstd::prelude::*;
use crate::config::{
    ports_from, text_bytes, HTTPSConfig, PortsError, ProtoPorts, UmbraOptions,
};
use crate::text::IpAddress;

verus! {

/// How much is logged, from nothing to everything.
#[derive(Debug, Clone, Copy, Hash, PartialEq, Eq, Structural)]
pub enum LogLevel {
    Off,
    Error,
    Warn,
    Info,
    Debug,
    Trace,
}

impl LogLevel {
    /// The place of a level in the order from `Off` (0) to `Trace` (5).
    pub open spec fn index(self) -> int {
        match self {
            LogLevel::Off => 0,
            LogLevel::Error => 1,
            LogLevel::Warn => 2,
            LogLevel::Info => 3,
            LogLevel::Debug => 4,
            LogLevel::Trace => 5,
        }
    }
}

/// The level index for a number of "more" and of "less" flags: two, plus
/// the first, minus the second, kept within 0 and 5.
pub open spec fn level_index(verbose_count: int, quiet_count: int) -> int {
    let raw = 2 + verbose_count - quiet_count;
    if raw < 0 {
        0
    } else if raw > 5 {
        5
    } else {
        raw
    }
}

/// The log level for a number of verbosity flags and of quiet flags:
/// `Warn` where they balance, one level up for each verbosity flag more and
/// one down for each quiet flag more, never beyond `Off` and `Trace`.
pub fn log_level(verbose_count: usize, quiet_count: usize) -> (level: LogLevel)
    ensures
        level.index() == level_index(verbose_count as int, quiet_count as int),
{
    if quiet_count >= verbose_count {
        let less: usize = quiet_count - verbose_count;
        if less >= 2 {
            LogLevel::Off
        } else if less == 1 {
            LogLevel::Error
        } else {
            LogLevel::Warn
        }
    } else {
        let more: usize = verbose_count - quiet_count;
        if more >= 3 {
            LogLevel::Trace
        } else if more == 2 {
            LogLevel::Debug
        } else {
            LogLevel::Info
        }
    }
}

/// Whether the options of a set were given all together or not at all.
pub fn cmd_set_specified_all_or_nothing(present: &[bool]) -> (ok: bool)
    ensures
        ok == ((forall|i: int| 0 <= i < present@.len() ==> present@[i]) || (forall|i: int|
            0 <= i < present@.len() ==> !present@[i])),
{
    let mut some_given: bool = false;
    let mut some_missing: bool = false;
    let mut i: usize = 0;
    while i < present.len()
        invariant
            i <= present.len(),
            some_given == (exists|j: int| 0 <= j < i && present@[j]),
            some_missing == (exists|j: int| 0 <= j < i && !present@[j]),
        decreases present.len() - i,
    {
        if present[i] {
            some_given = true;
        } else {
            some_missing = true;
        }
        i = i + 1;
    }
    !(some_given && some_missing)
}

/// The option names as they are typed, each behind two hyphens, separated
/// by a comma and a space.
pub open spec fn list_text(args: Seq<&str>) -> Seq<char>
    decreases args.len(),
{
    if args.len() == 0 {
        Seq::<char>::empty()
    } else if args.len() == 1 {
        seq!['-', '-'] + args[0]@
    } else {
        list_text(args.drop_last()) + seq![',', ' '] + seq!['-', '-'] + args.last()@
    }
}

/// `String::push_str`: the string then ends with the piece, behind what it
/// held before.
#[verifier::external_body]
fn push_text(out: &mut String, piece: &str)
    ensures
        final(out)@ == old(out)@ + piece@,
{
    out.push_str(piece)
}

/// Writes option names as they are typed: `--a, --b`.
pub fn cmd_list_str(args: &[&str]) -> (r: String)
    ensures
        r@ == list_text(args@),
{
    let mut out = String::new();
    let mut i: usize = 0;
    proof {
        reveal_strlit("--");
        reveal_strlit(", ");
    }
    assert(out@ =~= list_text(args@.take(0)));
    while i < args.len()
        invariant
            i <= args.len(),
            out@ == list_text(args@.take(i as int)),
            "--"@ == seq!['-', '-'],
            ", "@ == seq![',', ' '],
        decreases args.len() - i,
    {
        if i > 0 {
            push_text(&mut out, ", ");
        }
        push_text(&mut out, "--");
        push_text(&mut out, args[i]);
        proof {
            let next = args@.take(i + 1);
            assert(next.drop_last() =~= args@.take(i as int));
            assert(next.last() == args@[i as int]);
            assert(out@ =~= list_text(next));
        }
        i = i + 1;
    }
    assert(args@.take(i as int) =~= args@);
    out
}

/// The names of a set that were not given, in the order of the set: those
/// whose flag is not set, and those that have no flag.
pub open spec fn missing_names(names: Seq<&str>, present: Seq<bool>) -> Seq<&str>
    decreases names.len(),
{
    if names.len() == 0 {
        Seq::<&str>::empty()
    } else {
        let rest = missing_names(names.drop_last(), present);
        let last = names.len() - 1;
        if last < present.len() && present[last] {
            rest
        } else {
            rest.push(names.last())
        }
    }
}

/// The options of a set that were not given, in the order of the set.
pub fn missing_options<'a>(names: &[&'a str], present: &[bool]) -> (r: Vec<&'a str>)
    ensures
        r@ == missing_names(names@, present@),
{
    let mut out: Vec<&'a str> = Vec::new();
    let mut i: usize = 0;
    assert(out@ =~= missing_names(names@.take(0), present@));
    while i < names.len()
        invariant
            i <= names.len(),
            out@ == missing_names(names@.take(i as int), present@),
        decreases names.len() - i,
    {
        let given: bool = i < present.len() && present[i];
        if !given {
            out.push(names[i]);
        }
        proof {
            let next = names@.take(i + 1);
            assert(next.drop_last() =~= names@.take(i as int));
            assert(next.last() == names@[i as int]);
        }
        i = i + 1;
    }
    assert(names@.take(i as int) =~= names@);
    out
}

/// Which of the options that go together were given.
#[derive(Debug, Clone, Copy, Hash, PartialEq, Eq, Structural)]
pub struct OptionFlags {
    pub http_listen_port: bool,
    pub http_connect_port: bool,
    pub https_listen_port: bool,
    pub https_connect_port: bool,
    pub tls_cert: bool,
    pub tls_key: bool,
}

/// The values of the command line that decide the configuration.
#[derive(Debug, Clone)]
pub struct ArgValues<'a> {
    pub http_listen_port: Option<&'a str>,
    pub http_connect_port: Option<&'a str>,
    pub https_listen_port: Option<&'a str>,
    pub https_connect_port: Option<&'a str>,
    /// What the certificate file holds, where one was named.
    pub tls_cert: Option<Vec<u8>>,
    /// What the key file holds, where one was named.
    pub tls_key: Option<Vec<u8>>,
    pub listen_ip: IpAddress,
    pub connect_ip: IpAddress,
    /// What the configuration file holds.
    pub config: Vec<u8>,
}

/// One of the two sets of options that go together.
#[derive(Debug, Clone, Copy, Hash, PartialEq, Eq, Structural)]
pub enum OptionSet {
    Http,
    Https,
}

/// Why the command line gives no configuration.
#[derive(Debug, Clone, Copy, Hash, PartialEq, Eq, Structural)]
pub enum ConfigError {
    /// Neither listen port was given.
    NoProtocol,
    /// Some options of the set were given and some were not.
    IncompleteSet(OptionSet),
    /// The ports of the set are no port pair.
    Ports(OptionSet, PortsError),
}

impl OptionFlags {
    /// Whether the two plain options were given both or neither.
    pub open spec fn http_set_whole(self) -> bool {
        self.http_listen_port == self.http_connect_port
    }

    /// Whether the four TLS options were given all or none.
    pub open spec fn https_set_whole(self) -> bool {
        &&& self.https_listen_port == self.https_connect_port
        &&& self.https_listen_port == self.tls_cert
        &&& self.https_listen_port == self.tls_key
    }

    /// What is wrong with the options given, if anything: no listen port at
    /// all, or else the plain set in part, or else the TLS set in part.
    pub open spec fn fault(self) -> Option<ConfigError> {
        if !self.http_listen_port && !self.https_listen_port {
            Some(ConfigError::NoProtocol)
        } else if !self.http_set_whole() {
            Some(ConfigError::IncompleteSet(OptionSet::Http))
        } else if !self.https_set_whole() {
            Some(ConfigError::IncompleteSet(OptionSet::Https))
        } else {
            None
        }
    }
}

/// Checks that a listen port was given and that each option set was given
/// whole or not at all.
pub fn check_option_sets(flags: OptionFlags) -> (r: Result<(), ConfigError>)
    ensures
        match flags.fault() {
            Some(e) => r == Err::<(), ConfigError>(e),
            None => r is Ok,
        },
{
    if !flags.http_listen_port && !flags.https_listen_port {
        return Err(ConfigError::NoProtocol);
    }
    let http_given: [bool; 2] = [flags.http_listen_port, flags.http_connect_port];
    if !cmd_set_specified_all_or_nothing(http_given.as_slice()) {
        assert(http_given@[0] != http_given@[1]);
        return Err(ConfigError::IncompleteSet(OptionSet::Http));
    }
    assert(http_given@[0] == http_given@[1]);
    let https_given: [bool; 4] = [
        flags.https_listen_port,
        flags.https_connect_port,
        flags.tls_cert,
        flags.tls_key,
    ];
    if !cmd_set_specified_all_or_nothing(https_given.as_slice()) {
        assert(!flags.https_set_whole()) by {
            if flags.https_set_whole() {
                if https_given@[0] {
                    assert(forall|i: int| 0 <= i < 4 ==> https_given@[i]);
                } else {
                    assert(forall|i: int| 0 <= i < 4 ==> !https_given@[i]);
                }
            }
        }
        return Err(ConfigError::IncompleteSet(OptionSet::Https));
    }
    assert(https_given@[0] == https_given@[1] && https_given@[0] == https_given@[2]
        && https_given@[0] == https_given@[3]);
    Ok(())
}

impl<'a> ArgValues<'a> {
    /// Which of the options that go together were given.
    pub open spec fn flags(self) -> OptionFlags {
        OptionFlags {
            http_listen_port: self.http_listen_port is Some,
            http_connect_port: self.http_connect_port is Some,
            https_listen_port: self.https_listen_port is Some,
            https_connect_port: self.https_connect_port is Some,
            tls_cert: self.tls_cert is Some,
            tls_key: self.tls_key is Some,
        }
    }

    /// The configuration that the values add up to, or the first thing that
    /// is wrong with them.
    pub open spec fn outcome(self) -> Result<UmbraOptions, ConfigError> {
        let http = ports_from(
            text_bytes(self.http_listen_port),
            text_bytes(self.http_connect_port),
        );
        let https = ports_from(
            text_bytes(self.https_listen_port),
            text_bytes(self.https_connect_port),
        );
        if self.flags().fault() is Some {
            Err(self.flags().fault()->Some_0)
        } else if http is Err {
            Err(ConfigError::Ports(OptionSet::Http, http->Err_0))
        } else if https is Err {
            Err(ConfigError::Ports(OptionSet::Https, https->Err_0))
        } else {
            Ok(
                UmbraOptions {
                    http_ports: http->Ok_0,
                    listen_ip: self.listen_ip,
                    connect_ip: self.connect_ip,
                    https: match https->Ok_0 {
                        Some(ports) => Some(
                            HTTPSConfig {
                                ports,
                                _tls_cert: self.tls_cert->Some_0,
                                _tls_key: self.tls_key->Some_0,
                            },
                        ),
                        None => None,
                    },
                    _config: self.config,
                },
            )
        }
    }
}

/// Turns the values of the command line into the configuration: at least
/// one listen port must be given, each option set whole or not at all, and
/// every port a number from 1 to 65535.
pub fn parse_args(args: ArgValues<'_>) -> (r: Result<UmbraOptions, ConfigError>)
    ensures
        r == args.outcome(),
        r matches Ok(options) ==> options.wf(),
{
    let flags = OptionFlags {
        http_listen_port: args.http_listen_port.is_some(),
        http_connect_port: args.http_connect_port.is_some(),
        https_listen_port: args.https_listen_port.is_some(),
        https_connect_port: args.https_connect_port.is_some(),
        tls_cert: args.tls_cert.is_some(),
        tls_key: args.tls_key.is_some(),
    };
    match check_option_sets(flags) {
        Err(e) => {
            return Err(e);
        },
        Ok(()) => {},
    }
    let http_ports = match ProtoPorts::new(args.http_listen_port, args.http_connect_port) {
        Ok(ports) => ports,
        Err(e) => {
            return Err(ConfigError::Ports(OptionSet::Http, e));
        },
    };
    let https_ports = match ProtoPorts::new(args.https_listen_port, args.https_connect_port) {
        Ok(ports) => ports,
        Err(e) => {
            return Err(ConfigError::Ports(OptionSet::Https, e));
        },
    };
    let https = match (https_ports, args.tls_cert, args.tls_key) {
        (Some(ports), Some(cert), Some(key)) => Some(
            HTTPSConfig { ports, _tls_cert: cert, _tls_key: key },
        ),
        _ => None,
    };
    Ok(
        UmbraOptions {
            http_ports,
            listen_ip: args.listen_ip,
            connect_ip: args.connect_ip,
            https,
            _config: args.config,
        },
    )
}

} // verus!
