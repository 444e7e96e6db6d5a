//! The proxy's configuration: port pairs, addresses and key material.

use vstd::prelude::*;
use vstd::string::StringSliceAdditionalSpecFns;
use crate::text::IpAddress;

verus! {

/// The listen and connect port of one protocol.
#[derive(Debug, Clone, Copy, Hash, PartialEq, Eq, Structural)]
pub struct ProtoPorts {
    pub listen: u16,
    pub connect: u16,
}

impl ProtoPorts {
    /// Neither port is zero.
    pub open spec fn wf(self) -> bool {
        self.listen != 0 && self.connect != 0
    }
}

/// The port pair of the TLS side, with certificate chain and private key.
#[derive(Debug, Clone, Hash, PartialEq, Eq)]
pub struct HTTPSConfig {
    pub ports: ProtoPorts,
    pub _tls_cert: Vec<u8>,
    pub _tls_key: Vec<u8>,
}

/// Everything a connection handler reads; never changed after startup.
#[derive(Debug, Clone, Hash, PartialEq, Eq)]
pub struct UmbraOptions {
    pub http_ports: Option<ProtoPorts>,
    pub listen_ip: IpAddress,
    pub connect_ip: IpAddress,
    pub https: Option<HTTPSConfig>,
    pub _config: Vec<u8>,
}

/// The protocol a client speaks to the proxy.
#[derive(Debug, Clone, Copy, Hash, PartialEq, Eq, Structural)]
pub enum Protocol {
    Http,
    Https,
}

impl UmbraOptions {
    /// The port pair configured for a protocol, if any.
    pub open spec fn ports_of(self, protocol: Protocol) -> Option<ProtoPorts> {
        match protocol {
            Protocol::Http => self.http_ports,
            Protocol::Https => match self.https {
                Some(https) => Some(https.ports),
                None => None,
            },
        }
    }

    /// At least one protocol has a port pair, and no configured port is zero.
    pub open spec fn wf(self) -> bool {
        &&& (self.http_ports is Some || self.https is Some)
        &&& (self.http_ports matches Some(p) ==> p.wf())
        &&& (self.https matches Some(h) ==> h.ports.wf())
    }

    /// The port pair configured for a protocol, if any.
    pub fn ports(&self, protocol: Protocol) -> (r: Option<ProtoPorts>)
        ensures
            r == self.ports_of(protocol),
    {
        match protocol {
            Protocol::Http => self.http_ports,
            Protocol::Https => match &self.https {
                Some(https) => Some(https.ports),
                None => None,
            },
        }
    }
}

/// Why a text is no port number.
#[derive(Debug, Clone, Copy, Hash, PartialEq, Eq, Structural)]
pub enum PortError {
    /// The text is empty.
    Empty,
    /// The text holds something else than decimal digits after an optional
    /// plus sign, or nothing after the sign.
    InvalidDigit,
    /// The number is above 65535.
    TooLarge,
    /// The number is zero, which is no port of this proxy.
    Zero,
}

/// Why two texts are no port pair.
#[derive(Debug, Clone, Copy, Hash, PartialEq, Eq, Structural)]
pub enum PortsError {
    /// Only one of the two ports was given.
    Unpaired,
    /// The listen port is no port number.
    Listen(PortError),
    /// The connect port is no port number.
    Connect(PortError),
}

/// Whether a byte is a decimal digit.
pub open spec fn is_digit(b: u8) -> bool {
    48 <= b <= 57
}

/// Whether every byte is a decimal digit.
pub open spec fn all_digits(s: Seq<u8>) -> bool {
    forall|i: int| 0 <= i < s.len() ==> is_digit(#[trigger] s[i])
}

/// The number that a string of decimal digits stands for.
pub open spec fn decimal_value(s: Seq<u8>) -> nat
    decreases s.len(),
{
    if s.len() == 0 {
        0
    } else {
        decimal_value(s.drop_last()) * 10 + (s.last() - 48) as nat
    }
}

/// The text without its leading plus sign, if it has one.
pub open spec fn unsigned_body(s: Seq<u8>) -> Seq<u8> {
    if s.len() > 0 && s[0] == 43 {
        s.skip(1)
    } else {
        s
    }
}

/// The port that a text stands for, or why it stands for none.
pub open spec fn port_of(s: Seq<u8>) -> Result<u16, PortError> {
    let body = unsigned_body(s);
    if s.len() == 0 {
        Err(PortError::Empty)
    } else if body.len() == 0 || !all_digits(body) {
        Err(PortError::InvalidDigit)
    } else if decimal_value(body) > 65535 {
        Err(PortError::TooLarge)
    } else if decimal_value(body) == 0 {
        Err(PortError::Zero)
    } else {
        Ok(decimal_value(body) as u16)
    }
}

/// The port pair that two optional texts stand for: none where both are
/// missing, an error where one is missing or is no port number.
pub open spec fn ports_from(listen: Option<Seq<u8>>, connect: Option<Seq<u8>>) -> Result<
    Option<ProtoPorts>,
    PortsError,
> {
    match (listen, connect) {
        (None, None) => Ok(None),
        (Some(l), Some(c)) => match port_of(l) {
            Err(e) => Err(PortsError::Listen(e)),
            Ok(listen) => match port_of(c) {
                Err(e) => Err(PortsError::Connect(e)),
                Ok(connect) => Ok(Some(ProtoPorts { listen, connect })),
            },
        },
        _ => Err(PortsError::Unpaired),
    }
}

/// The bytes of an optional text.
pub open spec fn text_bytes(text: Option<&str>) -> Option<Seq<u8>> {
    match text {
        Some(s) => Some(s.spec_bytes()),
        None => None,
    }
}

/// Reads a port number: decimal digits after an optional plus sign, leading
/// zeros allowed, from 1 to 65535.
pub fn parse_port(s: &[u8]) -> (r: Result<u16, PortError>)
    ensures
        r == port_of(s@),
{
    if s.len() == 0 {
        return Err(PortError::Empty);
    }
    let start: usize = if s[0] == 43 { 1 } else { 0 };
    let ghost body = unsigned_body(s@);
    if start == s.len() {
        return Err(PortError::InvalidDigit);
    }
    let mut i: usize = start;
    let mut value: u32 = 0;
    assert(body =~= s@.skip(start as int));
    while i < s.len()
        invariant
            start <= i <= s.len(),
            body == s@.skip(start as int),
            body == unsigned_body(s@),
            s.len() > 0,
            all_digits(body.take(i - start)),
            value <= 65536,
            value == if decimal_value(body.take(i - start)) > 65535 {
                65536
            } else {
                decimal_value(body.take(i - start))
            },
        decreases s.len() - i,
    {
        let b: u8 = s[i];
        if b < 48 || b > 57 {
            assert(!is_digit(body[i - start]));
            return Err(PortError::InvalidDigit);
        }
        proof {
            let next = body.take(i + 1 - start);
            assert(next.drop_last() =~= body.take(i - start));
            assert(next.last() == b);
        }
        let digit: u32 = (b - 48) as u32;
        let grown: u32 = value * 10 + digit;
        value = if grown > 65535 { 65536 } else { grown };
        i = i + 1;
    }
    assert(body.take(i - start) =~= body);
    if value > 65535 {
        Err(PortError::TooLarge)
    } else if value == 0 {
        Err(PortError::Zero)
    } else {
        Ok(value as u16)
    }
}

impl ProtoPorts {
    /// The port pair that the two texts stand for, if both are given; none
    /// if neither is.
    pub fn new(listen: Option<&str>, connect: Option<&str>) -> (r: Result<
        Option<ProtoPorts>,
        PortsError,
    >)
        ensures
            r == ports_from(text_bytes(listen), text_bytes(connect)),
            r matches Ok(Some(ports)) ==> ports.wf(),
    {
        match (listen, connect) {
            (None, None) => Ok(None),
            (Some(l), Some(c)) => match parse_port(l.as_bytes()) {
                Err(e) => Err(PortsError::Listen(e)),
                Ok(listen) => match parse_port(c.as_bytes()) {
                    Err(e) => Err(PortsError::Connect(e)),
                    Ok(connect) => Ok(Some(ProtoPorts { listen, connect })),
                },
            },
            _ => Err(PortsError::Unpaired),
        }
    }
}

} // verus!
