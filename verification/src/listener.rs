//! Which listeners a configuration asks for.

use vstd::prelude::*;
use crate::config::UmbraOptions;
use crate::proxy::Error;
use crate::text::IpAddress;

verus! {

/// An address and port to bind.
#[derive(Debug, Clone, Copy, Hash, PartialEq, Eq)]
pub struct Endpoint {
    pub ip: IpAddress,
    pub port: u16,
}

/// The listeners to start: at most one per protocol.
#[derive(Debug, Clone, Copy, Hash, PartialEq, Eq)]
pub struct ListenerPlan {
    pub http: Option<Endpoint>,
    pub https: Option<Endpoint>,
}

/// The plain listener that a configuration asks for.
pub open spec fn http_endpoint(options: UmbraOptions) -> Option<Endpoint> {
    match options.http_ports {
        Some(ports) => Some(Endpoint { ip: options.listen_ip, port: ports.listen }),
        None => None,
    }
}

/// The TLS listener that a configuration asks for.
pub open spec fn https_endpoint(options: UmbraOptions) -> Option<Endpoint> {
    match options.https {
        Some(https) => Some(Endpoint { ip: options.listen_ip, port: https.ports.listen }),
        None => None,
    }
}

/// The listeners to start for a configuration: one for each protocol that
/// has a port pair, bound to the listen address and that pair's listen port,
/// and none for a protocol without one. A configuration with no port pair at
/// all is refused.
pub fn listener_plan(options: &UmbraOptions) -> (r: Result<ListenerPlan, Error>)
    ensures
        match r {
            Ok(plan) => {
                &&& plan.http == http_endpoint(*options)
                &&& plan.https == https_endpoint(*options)
                &&& (plan.http is Some || plan.https is Some)
            },
            Err(e) => {
                &&& e == Error::ProtocolNotConfigured
                &&& options.http_ports is None
                &&& options.https is None
            },
        },
{
    let http = match options.http_ports {
        Some(ports) => Some(Endpoint { ip: options.listen_ip, port: ports.listen }),
        None => None,
    };
    let https = match &options.https {
        Some(https) => Some(Endpoint { ip: options.listen_ip, port: https.ports.listen }),
        None => None,
    };
    if http.is_none() && https.is_none() {
        Err(Error::ProtocolNotConfigured)
    } else {
        Ok(ListenerPlan { http, https })
    }
}

} // verus!
