//! The forwarding rules: where a request goes, how its target is rewritten,
//! and what the proxy writes into the headers of requests and responses.

use vstd::prelude::*;
use crate::config::{Protocol, UmbraOptions};
use crate::headers::{
    has_room, header_fields, header_name_from_bytes, header_names, header_value_from_bytes,
    headers_try_insert, is_plain_name, is_value_byte, names_with,
};
use crate::text::{
    digits, has_two_colons, is_address_byte, is_address_text, lemma_digits_bytes,
    lemma_digits_no_colon, lemma_dotted_no_colon, lemma_v6_text_two_colons, octet_groups,
    push_number, IpAddress,
};
use crate::uri::authority_accepted;

verus! {

/// Why a request could not be prepared or answered.
#[derive(Debug, Clone, Copy, Hash, PartialEq, Eq, Structural)]
pub enum Error {
    /// The protocol of the connection has no port pair.
    ProtocolNotConfigured,
    /// The outbound target cannot be put together.
    UriConstruction,
    /// The header collection cannot take another name.
    TooManyHeaders,
    /// The backend could not be reached.
    BackendConnection,
    /// The client went away before it was answered.
    ClientDisconnect,
}

impl Error {
    /// Whether the failure ends with the one request it befell. Only a
    /// protocol without a port pair does not: no listener may run for it.
    pub open spec fn recoverable(self) -> bool {
        self != Error::ProtocolNotConfigured
    }

    /// Whether the failure ends with the one request it befell, so that the
    /// listener and every other connection go on.
    pub fn is_recoverable(&self) -> (r: bool)
        ensures
            r == self.recoverable(),
    {
        match self {
            Error::ProtocolNotConfigured => false,
            _ => true,
        }
    }
}

/// The address of the peer of an accepted connection.
#[derive(Debug, Clone, Copy, Hash, PartialEq, Eq)]
pub struct PeerAddress {
    pub ip: IpAddress,
    pub port: u16,
}

/// What is known of one accepted connection, for as long as it lasts.
#[derive(Debug, Clone, Copy, Hash, PartialEq, Eq)]
pub struct ConnectionCtx {
    pub remote_addr: PeerAddress,
    pub protocol: Protocol,
}

/// The parts of a request target, each as the bytes it is written with.
#[derive(Debug, Clone, Hash, PartialEq, Eq)]
pub struct UriParts {
    pub scheme: Option<Vec<u8>>,
    pub authority: Option<Vec<u8>>,
    pub path_and_query: Option<Vec<u8>>,
}

/// The bytes of an optional part.
pub open spec fn part_text(part: Option<Vec<u8>>) -> Option<Seq<u8>> {
    match part {
        Some(bytes) => Some(bytes@),
        None => None,
    }
}

/// The scheme of every outbound request: `http`.
pub open spec fn upstream_scheme() -> Seq<u8> {
    seq![104u8, 116u8, 116u8, 112u8]
}

/// The name of the request header that carries the client's address:
/// `forwarded`.
pub open spec fn client_header_name() -> Seq<u8> {
    seq![102u8, 111u8, 114u8, 119u8, 97u8, 114u8, 100u8, 101u8, 100u8]
}

/// The name of the response header that marks the proxy: `x-proxy-shim`.
pub open spec fn proxy_header_name() -> Seq<u8> {
    seq![120u8, 45u8, 112u8, 114u8, 111u8, 120u8, 121u8, 45u8, 115u8, 104u8, 105u8, 109u8]
}

/// The value of the response header that marks the proxy: `penumbra`.
pub open spec fn proxy_header_value() -> Seq<u8> {
    seq![112u8, 101u8, 110u8, 117u8, 109u8, 98u8, 114u8, 97u8]
}

/// The backend's host and port for a protocol: the connect address, a colon
/// and the connect port in decimal.
pub open spec fn connect_authority_text(options: UmbraOptions, protocol: Protocol) -> Option<
    Seq<u8>,
> {
    match options.ports_of(protocol) {
        Some(ports) => Some(
            options.connect_ip.text().push(58u8) + digits(ports.connect as nat, false),
        ),
        None => None,
    }
}

/// The headers of a request once the client's address is written into them.
pub open spec fn request_tinkered(fields: Map<Seq<u8>, Seq<Seq<u8>>>, peer: IpAddress) -> Map<
    Seq<u8>,
    Seq<Seq<u8>>,
> {
    fields.insert(client_header_name(), seq![peer.text()])
}

/// The headers of a response once the proxy's mark is written into them.
pub open spec fn response_tinkered(fields: Map<Seq<u8>, Seq<Seq<u8>>>) -> Map<
    Seq<u8>,
    Seq<Seq<u8>>,
> {
    fields.insert(proxy_header_name(), seq![proxy_header_value()])
}

/// The backend port that a protocol maps to, if the protocol is configured.
pub fn connect_port(options: &UmbraOptions, protocol: Protocol) -> (r: Result<u16, Error>)
    ensures
        match options.ports_of(protocol) {
            Some(ports) => r == Ok::<u16, Error>(ports.connect),
            None => r == Err::<u16, Error>(Error::ProtocolNotConfigured),
        },
{
    match options.ports(protocol) {
        Some(ports) => Ok(ports.connect),
        None => Err(Error::ProtocolNotConfigured),
    }
}

/// The backend's host and port for a protocol, as text.
pub fn connect_authority(options: &UmbraOptions, protocol: Protocol) -> (r: Result<Vec<u8>, Error>)
    ensures
        match connect_authority_text(*options, protocol) {
            Some(text) => r matches Ok(bytes) && bytes@ == text,
            None => r matches Err(e) && e == Error::ProtocolNotConfigured,
        },
{
    match connect_port(options, protocol) {
        Ok(port) => {
            let mut out: Vec<u8> = Vec::new();
            options.connect_ip.write_text(&mut out);
            out.push(58);
            push_number(&mut out, port, false);
            assert(out@ =~= options.connect_ip.text().push(58u8) + digits(port as nat, false));
            Ok(out)
        },
        Err(e) => Err(e),
    }
}

/// What rewriting may return for an inbound target with the given path and
/// query, once the backend's host and port are known and the authority
/// grammar has said whether it takes them.
pub open spec fn assembled(
    path_and_query: Option<Seq<u8>>,
    authority: Seq<u8>,
    accepted: bool,
    r: Result<UriParts, Error>,
) -> bool {
    match r {
        Ok(target) => {
            &&& accepted
            &&& path_and_query is Some
            &&& part_text(target.scheme) == Some(upstream_scheme())
            &&& part_text(target.authority) == Some(authority)
            &&& part_text(target.path_and_query) == path_and_query
        },
        Err(e) => e == Error::UriConstruction && (!accepted || path_and_query is None),
    }
}

/// Puts the outbound target together: scheme `http`, the given authority,
/// and the inbound path and query untouched. Fails where the authority was
/// not accepted or the inbound target has no path.
pub fn assemble_target(inbound: UriParts, authority: Vec<u8>, accepted: bool) -> (r: Result<
    UriParts,
    Error,
>)
    ensures
        assembled(part_text(inbound.path_and_query), authority@, accepted, r),
{
    if !accepted {
        return Err(Error::UriConstruction);
    }
    match inbound.path_and_query {
        Some(path) => {
            let mut scheme: Vec<u8> = Vec::new();
            scheme.push(104);
            scheme.push(116);
            scheme.push(116);
            scheme.push(112);
            assert(scheme@ =~= upstream_scheme());
            Ok(UriParts { scheme: Some(scheme), authority: Some(authority), path_and_query: Some(path) })
        },
        None => Err(Error::UriConstruction),
    }
}

/// The backend's host and port are written with address bytes only, and
/// hold more than one colon exactly where the connect address is of version
/// six: a version-four address has none, and the port brings one.
pub proof fn lemma_connect_authority_shape(options: UmbraOptions, protocol: Protocol)
    requires
        connect_authority_text(options, protocol) is Some,
    ensures
        is_address_text(connect_authority_text(options, protocol)->Some_0),
        connect_authority_text(options, protocol)->Some_0.len() > 0,
        has_two_colons(connect_authority_text(options, protocol)->Some_0) <==> (
        options.connect_ip is V6),
{
    let ports = options.ports_of(protocol)->Some_0;
    let host = options.connect_ip.text();
    let port = digits(ports.connect as nat, false);
    let text = host.push(58u8) + port;
    assert(connect_authority_text(options, protocol) == Some(text));
    options.connect_ip.lemma_text_bytes();
    lemma_digits_bytes(ports.connect as nat, false);
    lemma_digits_no_colon(ports.connect as nat, false);
    assert forall|i: int| 0 <= i < text.len() implies is_address_byte(#[trigger] text[i]) by {
        if i < host.len() {
            assert(text[i] == host[i]);
        } else if i > host.len() {
            assert(text[i] == port[i - host.len() - 1]);
        }
    }
    match options.connect_ip {
        IpAddress::V4 { octets } => {
            lemma_dotted_no_colon(octet_groups(octets@), false);
            assert forall|i: int, j: int| 0 <= i < j < text.len() implies !(#[trigger] text[i]
                == 58 && #[trigger] text[j] == 58) by {
                if i < host.len() {
                    assert(text[i] == host[i]);
                } else {
                    assert(text[j] == port[j - host.len() - 1]);
                }
            }
        },
        IpAddress::V6 { groups } => {
            lemma_v6_text_two_colons(groups@);
            let (i, j) = choose|i: int, j: int|
                0 <= i < j < host.len() && #[trigger] host[i] == 58 && #[trigger] host[j] == 58;
            assert(text[i] == host[i] && text[j] == host[j]);
        },
    }
}

/// What rewriting returns for a configuration, a protocol and the path and
/// query of an inbound target. The authority grammar takes the backend's
/// host and port exactly where the connect address is of version four: the
/// text of a version-six address, written without brackets, holds colons of
/// its own.
pub open spec fn rewritten(
    options: UmbraOptions,
    protocol: Protocol,
    path_and_query: Option<Seq<u8>>,
    r: Result<UriParts, Error>,
) -> bool {
    match connect_authority_text(options, protocol) {
        Some(authority) => assembled(path_and_query, authority, options.connect_ip is V4, r),
        None => r matches Err(e) && e == Error::ProtocolNotConfigured,
    }
}

/// Why a target cannot be rewritten, if it cannot: the protocol has no port
/// pair; or else the connect address is of version six, or the inbound
/// target has no path.
pub open spec fn target_error(
    options: UmbraOptions,
    protocol: Protocol,
    path_and_query: Option<Seq<u8>>,
) -> Option<Error> {
    if options.ports_of(protocol) is None {
        Some(Error::ProtocolNotConfigured)
    } else if !(options.connect_ip is V4) || path_and_query is None {
        Some(Error::UriConstruction)
    } else {
        None
    }
}

/// Points an inbound target at the backend of its protocol. The inbound
/// scheme and authority are dropped; path and query are kept as they are.
pub fn rewrite_target(options: &UmbraOptions, protocol: Protocol, inbound: UriParts) -> (r: Result<
    UriParts,
    Error,
>)
    ensures
        rewritten(*options, protocol, part_text(inbound.path_and_query), r),
        match target_error(*options, protocol, part_text(inbound.path_and_query)) {
            Some(e) => r matches Err(x) && x == e,
            None => r is Ok,
        },
{
    match connect_authority(options, protocol) {
        Ok(authority) => {
            proof {
                lemma_connect_authority_shape(*options, protocol);
            }
            let accepted = authority_accepted(authority.as_slice());
            assemble_target(inbound, authority, accepted)
        },
        Err(e) => Err(e),
    }
}

/// Whether two header collections hold the same names in the same order,
/// each with the same values.
pub open spec fn unchanged(
    before: http::HeaderMap<http::HeaderValue>,
    after: http::HeaderMap<http::HeaderValue>,
) -> bool {
    header_fields(after) == header_fields(before) && header_names(after) == header_names(before)
}

/// What the proxy reports for the outcome of writing one header: success
/// as it is, and a collection that cannot grow as `TooManyHeaders`.
pub fn insert_outcome(
    inserted: Result<Option<http::HeaderValue>, http::header::MaxSizeReached>,
) -> (r: Result<(), Error>)
    ensures
        r is Ok <==> inserted is Ok,
        r matches Err(e) ==> e == Error::TooManyHeaders,
{
    match inserted {
        Ok(_) => Ok(()),
        Err(_) => Err(Error::TooManyHeaders),
    }
}

/// Sets one header to one value, whatever values the name had before.
fn set_header(headers: &mut http::HeaderMap<http::HeaderValue>, name: &[u8], value: &[u8]) -> (r:
    Result<(), Error>)
    requires
        is_plain_name(name@),
        forall|i: int| 0 <= i < value@.len() ==> is_value_byte(#[trigger] value@[i]),
    ensures
        has_room(*old(headers)) ==> r is Ok,
        r is Ok ==> header_fields(*final(headers)) == header_fields(*old(headers)).insert(
            name@,
            seq![value@],
        ),
        r is Ok ==> header_names(*final(headers)) == names_with(header_names(*old(headers)), name@),
        r matches Err(e) ==> e == Error::TooManyHeaders && unchanged(*old(headers), *final(headers)),
{
    let name = header_name_from_bytes(name).unwrap();
    let value = header_value_from_bytes(value).unwrap();
    insert_outcome(headers_try_insert(headers, name, value))
}

/// The bytes of `forwarded`.
fn client_header_bytes() -> (r: Vec<u8>)
    ensures
        r@ == client_header_name(),
        is_plain_name(r@),
{
    let r: Vec<u8> = vec![102u8, 111u8, 114u8, 119u8, 97u8, 114u8, 100u8, 101u8, 100u8];
    assert(r@ =~= client_header_name());
    r
}

/// The bytes of `x-proxy-shim`.
fn proxy_header_bytes() -> (r: Vec<u8>)
    ensures
        r@ == proxy_header_name(),
        is_plain_name(r@),
{
    let r: Vec<u8> = vec![
        120u8, 45u8, 112u8, 114u8, 111u8, 120u8, 121u8, 45u8, 115u8, 104u8, 105u8, 109u8,
    ];
    assert(r@ =~= proxy_header_name());
    r
}

/// The bytes of `penumbra`.
fn proxy_value_bytes() -> (r: Vec<u8>)
    ensures
        r@ == proxy_header_value(),
        forall|i: int| 0 <= i < r@.len() ==> is_value_byte(#[trigger] r@[i]),
{
    let r: Vec<u8> = vec![112u8, 101u8, 110u8, 117u8, 109u8, 98u8, 114u8, 97u8];
    assert(r@ =~= proxy_header_value());
    r
}

/// Writes the client's address into the headers of a request that is about
/// to go to the backend: the header `forwarded` then has the text of the
/// peer's IP address as its only value, and every other header is as it was.
/// Succeeds on every collection with room; fails, with the headers
/// unchanged, only where the collection cannot grow.
pub fn tinker_http_request(
    connection: &ConnectionCtx,
    headers: &mut http::HeaderMap<http::HeaderValue>,
) -> (r: Result<(), Error>)
    ensures
        has_room(*old(headers)) ==> r is Ok,
        r is Ok ==> header_fields(*final(headers)) == request_tinkered(
            header_fields(*old(headers)),
            connection.remote_addr.ip,
        ),
        r is Ok ==> header_names(*final(headers)) == names_with(
            header_names(*old(headers)),
            client_header_name(),
        ),
        r matches Err(e) ==> e == Error::TooManyHeaders && unchanged(*old(headers), *final(headers)),
{
    let value = connection.remote_addr.ip.to_text();
    let name = client_header_bytes();
    proof {
        connection.remote_addr.ip.lemma_text_bytes();
    }
    set_header(headers, name.as_slice(), value.as_slice())
}

/// Writes the proxy's mark into the headers of a response that is about to
/// go to the client: the header `x-proxy-shim` then has `penumbra` as its
/// only value, and every other header is as it was. Fails, with the headers
/// unchanged, only where the collection cannot grow.
pub fn tinker_http_response(
    _connection: &ConnectionCtx,
    headers: &mut http::HeaderMap<http::HeaderValue>,
) -> (r: Result<(), Error>)
    ensures
        has_room(*old(headers)) ==> r is Ok,
        r is Ok ==> header_fields(*final(headers)) == response_tinkered(
            header_fields(*old(headers)),
        ),
        r is Ok ==> header_names(*final(headers)) == names_with(
            header_names(*old(headers)),
            proxy_header_name(),
        ),
        r matches Err(e) ==> e == Error::TooManyHeaders && unchanged(*old(headers), *final(headers)),
{
    let value = proxy_value_bytes();
    let name = proxy_header_bytes();
    set_header(headers, name.as_slice(), value.as_slice())
}

/// Prepares one request for the backend: rewrites its target and writes the
/// client's address into its headers. Succeeds wherever the target can be
/// rewritten and the headers have room. On any failure the headers are as
/// they were; the target is rewritten first, so a failure of the rewriting
/// is the one reported.
pub fn proxy(
    connection: &ConnectionCtx,
    inbound: UriParts,
    headers: &mut http::HeaderMap<http::HeaderValue>,
    options: &UmbraOptions,
) -> (r: Result<UriParts, Error>)
    ensures
        match r {
            Ok(target) => {
                &&& rewritten(
                    *options,
                    connection.protocol,
                    part_text(inbound.path_and_query),
                    Ok(target),
                )
                &&& header_fields(*final(headers)) == request_tinkered(
                    header_fields(*old(headers)),
                    connection.remote_addr.ip,
                )
                &&& header_names(*final(headers)) == names_with(
                    header_names(*old(headers)),
                    client_header_name(),
                )
            },
            Err(e) => {
                &&& unchanged(*old(headers), *final(headers))
                &&& match target_error(
                    *options,
                    connection.protocol,
                    part_text(inbound.path_and_query),
                ) {
                    Some(x) => e == x,
                    None => e == Error::TooManyHeaders && !has_room(*old(headers)),
                }
            },
        },
        target_error(*options, connection.protocol, part_text(inbound.path_and_query)) is Some
            ==> r is Err,
        target_error(*options, connection.protocol, part_text(inbound.path_and_query)) is None
            && has_room(*old(headers)) ==> r is Ok,
{
    match rewrite_target(options, connection.protocol, inbound) {
        Ok(target) => match tinker_http_request(connection, headers) {
            Ok(()) => Ok(target),
            Err(e) => Err(e),
        },
        Err(e) => Err(e),
    }
}

/// The status that a client is answered with where its request failed:
/// 502, whatever the failure.
pub fn gateway_status(_error: Error) -> (status: u16)
    ensures
        status == 502,
{
    502
}

/// What the client gets once the one try at the backend is over.
#[derive(Debug, Clone, Copy, Hash, PartialEq, Eq, Structural)]
pub enum Reply {
    /// The backend's response: its status and body as they came, its headers
    /// with the proxy's mark.
    PassOn,
    /// A response of the proxy's own with this status, which is no success.
    Gateway(u16),
}

/// Decides what the client gets once the one try at the backend is over, and
/// marks the headers of a response that is passed on. A backend that
/// answered has its response passed on, whatever its status; a backend that
/// could not be reached is not tried again: the client gets a response with
/// status 502, as it does where the mark cannot be written. `headers` are
/// those of the backend's response where it answered.
pub fn respond(
    backend_answered: bool,
    connection: &ConnectionCtx,
    headers: &mut http::HeaderMap<http::HeaderValue>,
) -> (reply: Reply)
    ensures
        backend_answered && has_room(*old(headers)) ==> reply == Reply::PassOn,
        !backend_answered ==> reply == Reply::Gateway(502),
        reply == Reply::PassOn ==> {
            &&& backend_answered
            &&& header_fields(*final(headers)) == response_tinkered(header_fields(*old(headers)))
            &&& header_names(*final(headers)) == names_with(
                header_names(*old(headers)),
                proxy_header_name(),
            )
        },
        reply matches Reply::Gateway(status) ==> {
            &&& status == 502
            &&& unchanged(*old(headers), *final(headers))
            &&& (!backend_answered || !has_room(*old(headers)))
        },
{
    if !backend_answered {
        return Reply::Gateway(gateway_status(Error::BackendConnection));
    }
    match tinker_http_response(connection, headers) {
        Ok(()) => Reply::PassOn,
        Err(e) => Reply::Gateway(gateway_status(e)),
    }
}

/// A rewritten target has the inbound path and query, byte for byte, the
/// scheme `http`, and as authority the connect address, a colon and the
/// connect port of the request's protocol.
pub proof fn lemma_rewrite_keeps_path(
    options: UmbraOptions,
    protocol: Protocol,
    path_and_query: Option<Seq<u8>>,
    target: UriParts,
)
    requires
        rewritten(options, protocol, path_and_query, Ok(target)),
    ensures
        part_text(target.path_and_query) == path_and_query,
        path_and_query is Some,
        part_text(target.scheme) == Some(upstream_scheme()),
        options.ports_of(protocol) matches Some(ports) && part_text(target.authority) == Some(
            options.connect_ip.text().push(58u8) + digits(ports.connect as nat, false),
        ),
        options.connect_ip is V4,
{
}

/// After the request headers are tinkered with, the client header has the
/// peer's address as its only value, whatever it held before.
pub proof fn lemma_request_tinker_overwrites(fields: Map<Seq<u8>, Seq<Seq<u8>>>, peer: IpAddress)
    ensures
        request_tinkered(fields, peer).contains_key(client_header_name()),
        request_tinkered(fields, peer)[client_header_name()] == seq![peer.text()],
{
}

/// After the response headers are tinkered with, the proxy's mark is there
/// exactly once, with its constant value.
pub proof fn lemma_response_tinker_marks_once(fields: Map<Seq<u8>, Seq<Seq<u8>>>)
    ensures
        response_tinkered(fields).contains_key(proxy_header_name()),
        response_tinkered(fields)[proxy_header_name()].len() == 1,
        response_tinkered(fields)[proxy_header_name()][0] == proxy_header_value(),
{
}

/// Tinkering twice is tinkering once, for requests and for responses.
pub proof fn lemma_tinker_idempotent(fields: Map<Seq<u8>, Seq<Seq<u8>>>, peer: IpAddress)
    ensures
        request_tinkered(request_tinkered(fields, peer), peer) == request_tinkered(fields, peer),
        response_tinkered(response_tinkered(fields)) == response_tinkered(fields),
{
    assert(request_tinkered(request_tinkered(fields, peer), peer) =~= request_tinkered(
        fields,
        peer,
    ));
    assert(response_tinkered(response_tinkered(fields)) =~= response_tinkered(fields));
}

/// Setting a header moves no name: every name that was there is still at
/// its place, and at most the header's own name has come in, at the end.
/// Setting it a second time changes nothing.
pub proof fn lemma_tinker_keeps_order(names: Seq<Seq<u8>>, name: Seq<u8>)
    ensures
        names.len() <= names_with(names, name).len() <= names.len() + 1,
        forall|i: int| 0 <= i < names.len() ==> names_with(names, name)[i] == names[i],
        names_with(names, name).len() > names.len() ==> names_with(names, name).last() == name,
        names_with(names_with(names, name), name) == names_with(names, name),
{
    if !names.contains(name) {
        assert(names.push(name)[names.len() as int] == name);
    }
}

/// Tinkering leaves every header but its own as it was: neither added, nor
/// removed, nor changed in any of its values or their order.
pub proof fn lemma_tinker_keeps_other_headers(
    fields: Map<Seq<u8>, Seq<Seq<u8>>>,
    peer: IpAddress,
    name: Seq<u8>,
)
    ensures
        name != client_header_name() ==> {
            &&& request_tinkered(fields, peer).contains_key(name) == fields.contains_key(name)
            &&& fields.contains_key(name) ==> request_tinkered(fields, peer)[name] == fields[name]
        },
        name != proxy_header_name() ==> {
            &&& response_tinkered(fields).contains_key(name) == fields.contains_key(name)
            &&& fields.contains_key(name) ==> response_tinkered(fields)[name] == fields[name]
        },
{
}

} // verus!
