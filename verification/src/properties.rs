//! Listener-, connection- and request-scoped properties, the builders
//! that derive them, and the capability surface an embedder implements to
//! source listeners and streams from a resource table.

use vstd::prelude::*;

use crate::net::IpAddress;
use crate::net::NetworkStreamAddress;
use crate::net::NetworkStreamType;
use crate::net::dec_seq;
use crate::net::ip_seq;
use crate::net::is_loopback;
use crate::net::is_unspecified;
use crate::net::ip_is_loopback;
use crate::net::ip_is_unspecified;
use crate::net::push_dec_u16;
use crate::net::push_ip;
use crate::net::push_sock_addr;
use crate::net::sock_addr_seq;
use crate::percent::pct_encode_non_alphanumeric;
use crate::percent::pct_encode_seq;
use crate::request::HeaderMap;
use crate::request::Uri;
use crate::request::req_host;
use crate::request::req_host_spec;

verus! {

/// Identifies a resource in the embedder's resource table.
pub type ResourceId = u32;

/// Properties computed once per listener and shared by every connection
/// accepted on it.
#[derive(Clone)]
pub struct HttpListenProperties {
    pub stream_type: NetworkStreamType,
    pub scheme: &'static str,
    pub fallback_host: String,
    pub local_port: Option<u16>,
}

/// Properties computed once per accepted connection and shared by every
/// request on it.
#[derive(Clone)]
pub struct HttpConnectionProperties {
    pub stream_type: NetworkStreamType,
    pub peer_address: String,
    pub peer_port: Option<u16>,
    pub local_port: Option<u16>,
}

/// Properties computed once per request: the authority it targets, or
/// `None` when the caller must use the listener's fallback host.
pub struct HttpRequestProperties {
    pub authority: Option<String>,
}

/// The URI scheme literal for a transport kind.
pub open spec fn scheme_seq(stream_type: NetworkStreamType) -> Seq<char> {
    match stream_type {
        NetworkStreamType::Tcp => "http://"@,
        NetworkStreamType::Tls => "https://"@,
        NetworkStreamType::Unix => "http+unix://"@,
    }
}

/// Maps a transport kind to its URI scheme literal.
pub fn req_scheme_from_stream_type(stream_type: NetworkStreamType) -> (r: &'static str)
    ensures
        r@ == scheme_seq(stream_type),
{
    match stream_type {
        NetworkStreamType::Tcp => "http://",
        NetworkStreamType::Tls => "https://",
        NetworkStreamType::Unix => "http+unix://",
    }
}

/// True when the port is the conventional default for the transport:
/// 80 for plain TCP, 443 for TLS.
pub open spec fn default_port(stream_type: NetworkStreamType, port: u16) -> bool {
    (stream_type == NetworkStreamType::Tls && port == 443) || (stream_type
        == NetworkStreamType::Tcp && port == 80)
}

/// The bytes handed to the percent encoder for a unix-domain socket
/// path: the path's textual form, or nothing when it has none.
pub open spec fn unix_path_bytes(path: Option<Vec<u8>>) -> Seq<u8> {
    match path {
        Some(v) => v@,
        None => Seq::empty(),
    }
}

/// The fallback host derived from the listener's bound address: loopback
/// and unspecified addresses are rewritten to `localhost`, the
/// conventional default port is elided, and a unix-domain socket path is
/// percent-encoded into a single opaque token.
pub open spec fn fallback_host_seq(
    stream_type: NetworkStreamType,
    addr: NetworkStreamAddress,
) -> Seq<char> {
    match addr {
        NetworkStreamAddress::Ip(ip, port) => if default_port(stream_type, port) {
            if is_loopback(ip) || is_unspecified(ip) {
                "localhost"@
            } else {
                ip_seq(ip)
            }
        } else {
            if is_loopback(ip) || is_unspecified(ip) {
                "localhost:"@ + dec_seq(port as int)
            } else {
                sock_addr_seq(ip, port)
            }
        },
        NetworkStreamAddress::Unix(path) => pct_encode_seq(unix_path_bytes(path)),
    }
}

/// Computes the fallback host for a listener's bound address. When a
/// request carries no authority in its URI and no `host` header, callers
/// fall back to this value.
pub fn req_host_from_addr(stream_type: NetworkStreamType, addr: &NetworkStreamAddress) -> (r:
    String)
    ensures
        r@ == fallback_host_seq(stream_type, *addr),
{
    match addr {
        NetworkStreamAddress::Ip(ip, port) => {
            let lu = ip_is_loopback(ip) || ip_is_unspecified(ip);
            if (stream_type == NetworkStreamType::Tls && *port == 443) || (stream_type
                == NetworkStreamType::Tcp && *port == 80) {
                if lu {
                    "localhost".to_owned()
                } else {
                    let mut s = String::new();
                    push_ip(&mut s, ip);
                    proof {
                        assert(s@ =~= ip_seq(*ip));
                    }
                    s
                }
            } else {
                if lu {
                    let mut s = "localhost:".to_owned();
                    push_dec_u16(&mut s, *port);
                    s
                } else {
                    let mut s = String::new();
                    push_sock_addr(&mut s, ip, *port);
                    proof {
                        assert(s@ =~= sock_addr_seq(*ip, *port));
                    }
                    s
                }
            }
        },
        NetworkStreamAddress::Unix(path) => {
            match path {
                Some(bytes) => pct_encode_non_alphanumeric(bytes),
                None => {
                    let empty: Vec<u8> = Vec::new();
                    pct_encode_non_alphanumeric(&empty)
                },
            }
        },
    }
}

/// The local port a socket address carries: `None` for a unix-domain
/// socket, which has no notion of ports.
pub open spec fn local_port_of(addr: NetworkStreamAddress) -> Option<u16> {
    match addr {
        NetworkStreamAddress::Ip(_, port) => Some(port),
        NetworkStreamAddress::Unix(_) => None,
    }
}

/// The peer host string recorded for a connection: the peer's bare IP
/// rendered as text — never rewritten to `localhost` — or the fixed
/// token `unix` for a unix-domain socket peer.
pub open spec fn peer_host_seq(addr: NetworkStreamAddress) -> Seq<char> {
    match addr {
        NetworkStreamAddress::Ip(ip, _) => ip_seq(ip),
        NetworkStreamAddress::Unix(_) => "unix"@,
    }
}

/// The port the host resolver is given: the connection's local port, or
/// zero when the transport has none.
pub open spec fn port_or_zero(port: Option<u16>) -> u16 {
    match port {
        Some(p) => p,
        None => 0,
    }
}

/// Law: a peer's host string is never `localhost`, whatever address the
/// peer connected from — only the listener-side fallback host rewrites
/// loopback and unspecified addresses.
pub proof fn lemma_peer_host_never_localhost(peer_address: NetworkStreamAddress)
    ensures
        peer_host_seq(peer_address) != "localhost"@,
{
    reveal_strlit("localhost");
    reveal_strlit("unix");
    match peer_address {
        NetworkStreamAddress::Ip(ip, _) => {
            crate::net::lemma_ip_seq_first(ip);
        },
        NetworkStreamAddress::Unix(_) => {
            assert("unix"@.len() != "localhost"@.len());
        },
    }
}

/// A listener taken from the resource table: the transport it accepts
/// and the address it is bound to.
pub struct NetworkStreamListener {
    pub stream_type: NetworkStreamType,
    pub local_address: NetworkStreamAddress,
}

/// A connection stream taken from the resource table: its transport and
/// the peer's address.
pub struct NetworkStream {
    pub stream_type: NetworkStreamType,
    pub peer_address: NetworkStreamAddress,
}

/// An entry of the resource table.
pub enum NetworkResource {
    Listener(NetworkStreamListener),
    Stream(NetworkStream),
}

/// A table of resources keyed by identifier, with ownership-transferring
/// take semantics: acquiring an entry removes it, so of two acquisitions
/// of one identifier exactly one can succeed.
pub struct ResourceTable {
    pub entries: Vec<(ResourceId, NetworkResource)>,
}

impl ResourceTable {
    /// Well-formed: each identifier names at most one entry, as in a
    /// table keyed by identifier.
    pub open spec fn wf(self) -> bool {
        forall|i: int, j: int|
            #![trigger self.entries@[i], self.entries@[j]]
            0 <= i < j < self.entries@.len() ==> self.entries@[i].0 != self.entries@[j].0
    }
}

/// The one error class of this crate: a resource identifier that is
/// absent from the table or names a resource of an incompatible kind.
#[derive(Clone, Copy, PartialEq, Eq, Structural, Debug)]
pub enum ResourceError {
    NotFound,
}

/// True when no entry of `s` carries the identifier.
pub open spec fn id_absent(s: Seq<(ResourceId, NetworkResource)>, rid: ResourceId) -> bool {
    forall|i: int| 0 <= i < s.len() ==> s[i].0 != rid
}

/// True when `i` is the first position of `s` carrying the identifier.
pub open spec fn first_entry_at(
    s: Seq<(ResourceId, NetworkResource)>,
    rid: ResourceId,
    i: int,
) -> bool {
    0 <= i < s.len() && s[i].0 == rid && (forall|k: int| 0 <= k < i ==> s[k].0 != rid)
}

/// Removing the one entry that carries an identifier from a table of
/// pairwise-distinct identifiers leaves that identifier absent and the
/// remaining identifiers pairwise distinct.
proof fn lemma_take_from_unique(s: Seq<(ResourceId, NetworkResource)>, i: int, rid: ResourceId)
    requires
        0 <= i < s.len(),
        s[i].0 == rid,
        forall|a: int, b: int|
            #![trigger s[a], s[b]]
            0 <= a < b < s.len() ==> s[a].0 != s[b].0,
    ensures
        id_absent(s.remove(i), rid),
        forall|a: int, b: int|
            #![trigger s.remove(i)[a], s.remove(i)[b]]
            0 <= a < b < s.remove(i).len() ==> s.remove(i)[a].0 != s.remove(i)[b].0,
{
    s.remove_ensures(i);
    let t = s.remove(i);
    assert forall|k: int| 0 <= k < t.len() implies t[k].0 != rid by {
        if k < i {
            assert(t[k] == s[k]);
        } else {
            assert(t[k] == s[k + 1]);
        }
        assert(s[i].0 == rid);
    }
    assert forall|a: int, b: int| 0 <= a < b < t.len() implies t[a].0 != t[b].0 by {
        if a < i {
            assert(t[a] == s[a]);
        } else {
            assert(t[a] == s[a + 1]);
        }
        if b < i {
            assert(t[b] == s[b]);
        } else {
            assert(t[b] == s[b + 1]);
        }
    }
}

/// Takes the listener with the given identifier out of the table. The
/// entry is consumed on success; an absent identifier or one naming a
/// stream yields the not-found error and leaves the table unchanged.
pub fn take_network_stream_listener_resource(
    table: &mut ResourceTable,
    listener_rid: ResourceId,
) -> (r: Result<NetworkStreamListener, ResourceError>)
    requires
        old(table).wf(),
    ensures
        final(table).wf(),
        r is Ok ==> id_absent(final(table).entries@, listener_rid),
        id_absent(old(table).entries@, listener_rid) ==> r == Err::<
            NetworkStreamListener,
            ResourceError,
        >(ResourceError::NotFound) && final(table).entries@ == old(table).entries@,
        forall|i: int|
            first_entry_at(old(table).entries@, listener_rid, i) ==> (match old(
                table,
            ).entries@[i].1 {
                NetworkResource::Listener(l) => r == Ok::<NetworkStreamListener, ResourceError>(l)
                    && final(table).entries@ == old(table).entries@.remove(i),
                NetworkResource::Stream(_) => r == Err::<NetworkStreamListener, ResourceError>(
                    ResourceError::NotFound,
                ) && final(table).entries@ == old(table).entries@,
            }),
{
    let ghost orig: Seq<(ResourceId, NetworkResource)> = old(table).entries@;
    let n = table.entries.len();
    let mut idx: usize = 0;
    while idx < n
        invariant
            idx <= n,
            n == table.entries.len(),
            table.entries@ == orig,
            orig == old(table).entries@,
            old(table).wf(),
            forall|k: int| 0 <= k < idx ==> orig[k].0 != listener_rid,
        decreases n - idx,
    {
        if table.entries[idx].0 == listener_rid {
            proof {
                assert(!id_absent(orig, listener_rid)) by {
                    assert(orig[idx as int].0 == listener_rid);
                }
                assert forall|i: int|
                    first_entry_at(orig, listener_rid, i) implies i == idx as int by {
                    if i < idx as int {
                        assert(orig[i].0 != listener_rid);
                    } else if i > idx as int {
                        assert(orig[idx as int].0 != listener_rid);
                    }
                }
                lemma_take_from_unique(orig, idx as int, listener_rid);
            }
            let entry = table.entries.remove(idx);
            match entry.1 {
                NetworkResource::Listener(l) => {
                    return Ok(l);
                },
                NetworkResource::Stream(st) => {
                    table.entries.insert(idx, (entry.0, NetworkResource::Stream(st)));
                    proof {
                        assert(table.entries@ =~= orig);
                    }
                    return Err(ResourceError::NotFound);
                },
            }
        }
        idx = idx + 1;
    }
    Err(ResourceError::NotFound)
}

/// Takes the connection stream with the given identifier out of the
/// table. The entry is consumed on success; an absent identifier or one
/// naming a listener yields the not-found error and leaves the table
/// unchanged.
pub fn take_network_stream_resource(table: &mut ResourceTable, rid: ResourceId) -> (r: Result<
    NetworkStream,
    ResourceError,
>)
    requires
        old(table).wf(),
    ensures
        final(table).wf(),
        r is Ok ==> id_absent(final(table).entries@, rid),
        id_absent(old(table).entries@, rid) ==> r == Err::<NetworkStream, ResourceError>(
            ResourceError::NotFound,
        ) && final(table).entries@ == old(table).entries@,
        forall|i: int|
            first_entry_at(old(table).entries@, rid, i) ==> (match old(table).entries@[i].1 {
                NetworkResource::Stream(st) => r == Ok::<NetworkStream, ResourceError>(st)
                    && final(table).entries@ == old(table).entries@.remove(i),
                NetworkResource::Listener(_) => r == Err::<NetworkStream, ResourceError>(
                    ResourceError::NotFound,
                ) && final(table).entries@ == old(table).entries@,
            }),
{
    let ghost orig: Seq<(ResourceId, NetworkResource)> = old(table).entries@;
    let n = table.entries.len();
    let mut idx: usize = 0;
    while idx < n
        invariant
            idx <= n,
            n == table.entries.len(),
            table.entries@ == orig,
            orig == old(table).entries@,
            old(table).wf(),
            forall|k: int| 0 <= k < idx ==> orig[k].0 != rid,
        decreases n - idx,
    {
        if table.entries[idx].0 == rid {
            proof {
                assert(!id_absent(orig, rid)) by {
                    assert(orig[idx as int].0 == rid);
                }
                assert forall|i: int| first_entry_at(orig, rid, i) implies i == idx as int by {
                    if i < idx as int {
                        assert(orig[i].0 != rid);
                    } else if i > idx as int {
                        assert(orig[idx as int].0 != rid);
                    }
                }
                lemma_take_from_unique(orig, idx as int, rid);
            }
            let entry = table.entries.remove(idx);
            match entry.1 {
                NetworkResource::Stream(st) => {
                    return Ok(st);
                },
                NetworkResource::Listener(l) => {
                    table.entries.insert(idx, (entry.0, NetworkResource::Listener(l)));
                    proof {
                        assert(table.entries@ =~= orig);
                    }
                    return Err(ResourceError::NotFound);
                },
            }
        }
        idx = idx + 1;
    }
    Err(ResourceError::NotFound)
}

/// The capability surface an embedder implements to supply listeners,
/// streams and their derived properties; substituting an implementation
/// changes where connections come from without touching the
/// host-resolution rules, which the contracts below pin down.
pub trait HttpPropertyExtractor {
    /// Takes the listener with the given identifier out of the table.
    fn get_network_stream_listener_for_rid(
        table: &mut ResourceTable,
        listener_rid: ResourceId,
    ) -> (r: Result<NetworkStreamListener, ResourceError>)
        requires
            old(table).wf(),
        ensures
            final(table).wf(),
            r is Ok ==> id_absent(final(table).entries@, listener_rid),
            id_absent(old(table).entries@, listener_rid) ==> r == Err::<
                NetworkStreamListener,
                ResourceError,
            >(ResourceError::NotFound) && final(table).entries@ == old(table).entries@,
            forall|i: int|
                first_entry_at(old(table).entries@, listener_rid, i) ==> (match old(
                    table,
                ).entries@[i].1 {
                    NetworkResource::Listener(l) => r == Ok::<
                        NetworkStreamListener,
                        ResourceError,
                    >(l) && final(table).entries@ == old(table).entries@.remove(i),
                    NetworkResource::Stream(_) => r == Err::<NetworkStreamListener, ResourceError>(
                        ResourceError::NotFound,
                    ) && final(table).entries@ == old(table).entries@,
                }),
    ;

    /// Takes the connection stream with the given identifier out of the
    /// table.
    fn get_network_stream_for_rid(table: &mut ResourceTable, rid: ResourceId) -> (r: Result<
        NetworkStream,
        ResourceError,
    >)
        requires
            old(table).wf(),
        ensures
            final(table).wf(),
            r is Ok ==> id_absent(final(table).entries@, rid),
            id_absent(old(table).entries@, rid) ==> r == Err::<NetworkStream, ResourceError>(
                ResourceError::NotFound,
            ) && final(table).entries@ == old(table).entries@,
            forall|i: int|
                first_entry_at(old(table).entries@, rid, i) ==> (match old(table).entries@[i].1 {
                    NetworkResource::Stream(st) => r == Ok::<NetworkStream, ResourceError>(st)
                        && final(table).entries@ == old(table).entries@.remove(i),
                    NetworkResource::Listener(_) => r == Err::<NetworkStream, ResourceError>(
                        ResourceError::NotFound,
                    ) && final(table).entries@ == old(table).entries@,
                }),
    ;

    /// Determines the listener properties.
    fn listen_properties(
        stream_type: NetworkStreamType,
        local_address: &NetworkStreamAddress,
    ) -> (r: HttpListenProperties)
        ensures
            r.stream_type == stream_type,
            r.scheme@ == scheme_seq(stream_type),
            r.fallback_host@ == fallback_host_seq(stream_type, *local_address),
            r.local_port == local_port_of(*local_address),
    ;

    /// Determines the connection properties.
    fn connection_properties(
        listen_properties: &HttpListenProperties,
        peer_address: &NetworkStreamAddress,
    ) -> (r: HttpConnectionProperties)
        ensures
            r.stream_type == listen_properties.stream_type,
            r.local_port == listen_properties.local_port,
            r.peer_port == local_port_of(*peer_address),
            r.peer_address@ == peer_host_seq(*peer_address),
    ;

    /// Determines the request properties.
    fn request_properties(
        connection_properties: &HttpConnectionProperties,
        uri: &Uri,
        headers: &HeaderMap,
    ) -> (r: HttpRequestProperties)
        ensures
            (match r.authority {
                Some(s) => req_host_spec(
                    *uri,
                    *headers,
                    connection_properties.stream_type,
                    port_or_zero(connection_properties.local_port),
                ) == Some(s@),
                None => req_host_spec(
                    *uri,
                    *headers,
                    connection_properties.stream_type,
                    port_or_zero(connection_properties.local_port),
                ) is None,
            }),
    ;
}

/// The standard implementation of the capability surface, backed by the
/// resource table and the builders of this crate.
pub struct DefaultHttpPropertyExtractor {}

impl HttpPropertyExtractor for DefaultHttpPropertyExtractor {
    fn get_network_stream_listener_for_rid(
        table: &mut ResourceTable,
        listener_rid: ResourceId,
    ) -> (r: Result<NetworkStreamListener, ResourceError>) {
        take_network_stream_listener_resource(table, listener_rid)
    }

    fn get_network_stream_for_rid(table: &mut ResourceTable, rid: ResourceId) -> (r: Result<
        NetworkStream,
        ResourceError,
    >) {
        take_network_stream_resource(table, rid)
    }

    fn listen_properties(
        stream_type: NetworkStreamType,
        local_address: &NetworkStreamAddress,
    ) -> (r: HttpListenProperties) {
        let scheme = req_scheme_from_stream_type(stream_type);
        let fallback_host = req_host_from_addr(stream_type, local_address);
        let local_port: Option<u16> = match local_address {
            NetworkStreamAddress::Ip(_, port) => Some(*port),
            NetworkStreamAddress::Unix(_) => None,
        };
        HttpListenProperties { stream_type, scheme, fallback_host, local_port }
    }

    fn connection_properties(
        listen_properties: &HttpListenProperties,
        peer_address: &NetworkStreamAddress,
    ) -> (r: HttpConnectionProperties) {
        let peer_port: Option<u16> = match peer_address {
            NetworkStreamAddress::Ip(_, port) => Some(*port),
            NetworkStreamAddress::Unix(_) => None,
        };
        let peer_host: String = match peer_address {
            NetworkStreamAddress::Ip(ip, _) => {
                let mut s = String::new();
                push_ip(&mut s, ip);
                proof {
                    assert(s@ =~= ip_seq(*ip));
                }
                s
            },
            NetworkStreamAddress::Unix(_) => "unix".to_owned(),
        };
        HttpConnectionProperties {
            stream_type: listen_properties.stream_type,
            peer_address: peer_host,
            peer_port,
            local_port: listen_properties.local_port,
        }
    }

    fn request_properties(
        connection_properties: &HttpConnectionProperties,
        uri: &Uri,
        headers: &HeaderMap,
    ) -> (r: HttpRequestProperties) {
        let port: u16 = match connection_properties.local_port {
            Some(p) => p,
            None => 0,
        };
        let authority = req_host(uri, headers, connection_properties.stream_type, port);
        HttpRequestProperties { authority }
    }
}

} // verus!
