use http_props::net::IpAddress;
use http_props::net::NetworkStreamAddress;
use http_props::net::NetworkStreamType;
use http_props::properties::DefaultHttpPropertyExtractor;
use http_props::properties::HttpPropertyExtractor;
use http_props::properties::NetworkResource;
use http_props::properties::NetworkStream;
use http_props::properties::NetworkStreamListener;
use http_props::properties::ResourceError;
use http_props::properties::ResourceTable;
use http_props::request::HeaderMap;
use http_props::request::Uri;
use http_props::request::UriAuthority;

fn v4(a: u8, b: u8, c: u8, d: u8, port: u16) -> NetworkStreamAddress {
    NetworkStreamAddress::Ip(IpAddress::V4([a, b, c, d]), port)
}

fn v6(segs: [u16; 8], port: u16) -> NetworkStreamAddress {
    NetworkStreamAddress::Ip(IpAddress::V6(segs), port)
}

#[test]
fn listen_properties_plain() {
    let p = DefaultHttpPropertyExtractor::listen_properties(
        NetworkStreamType::Tcp,
        &v4(127, 0, 0, 1, 8080),
    );
    assert_eq!(p.stream_type, NetworkStreamType::Tcp);
    assert_eq!(p.scheme, "http://");
    assert_eq!(p.fallback_host, "localhost:8080");
    assert_eq!(p.local_port, Some(8080));
}

#[test]
fn listen_properties_unix_has_no_port() {
    let p = DefaultHttpPropertyExtractor::listen_properties(
        NetworkStreamType::Unix,
        &NetworkStreamAddress::Unix(Some(b"/tmp/sock".to_vec())),
    );
    assert_eq!(p.stream_type, NetworkStreamType::Unix);
    assert_eq!(p.scheme, "http+unix://");
    assert_eq!(p.fallback_host, "%2Ftmp%2Fsock");
    assert_eq!(p.local_port, None);
}

#[test]
fn connection_properties_copies_listener_port() {
    let lp = DefaultHttpPropertyExtractor::listen_properties(
        NetworkStreamType::Tls,
        &v4(0, 0, 0, 0, 443),
    );
    let cp = DefaultHttpPropertyExtractor::connection_properties(&lp, &v4(203, 0, 113, 9, 50111));
    assert_eq!(cp.stream_type, NetworkStreamType::Tls);
    assert_eq!(cp.peer_address, "203.0.113.9");
    assert_eq!(cp.peer_port, Some(50111));
    assert_eq!(cp.local_port, Some(443));
}

#[test]
fn connection_peer_loopback_not_rewritten() {
    let lp = DefaultHttpPropertyExtractor::listen_properties(
        NetworkStreamType::Tcp,
        &v4(127, 0, 0, 1, 80),
    );
    assert_eq!(lp.fallback_host, "localhost");
    let cp = DefaultHttpPropertyExtractor::connection_properties(&lp, &v4(127, 0, 0, 1, 39000));
    assert_eq!(cp.peer_address, "127.0.0.1");
    let cp = DefaultHttpPropertyExtractor::connection_properties(&lp, &v4(0, 0, 0, 0, 39001));
    assert_eq!(cp.peer_address, "0.0.0.0");
    let cp = DefaultHttpPropertyExtractor::connection_properties(
        &lp,
        &v6([0, 0, 0, 0, 0, 0, 0, 1], 39002),
    );
    assert_eq!(cp.peer_address, "::1");
}

#[test]
fn connection_unix_peer_token() {
    let lp = DefaultHttpPropertyExtractor::listen_properties(
        NetworkStreamType::Unix,
        &NetworkStreamAddress::Unix(Some(b"/tmp/sock".to_vec())),
    );
    let cp = DefaultHttpPropertyExtractor::connection_properties(
        &lp,
        &NetworkStreamAddress::Unix(None),
    );
    assert_eq!(cp.peer_address, "unix");
    assert_eq!(cp.peer_port, None);
    assert_eq!(cp.local_port, None);
}

#[test]
fn ipv6_rendering_forms() {
    let lp = DefaultHttpPropertyExtractor::listen_properties(
        NetworkStreamType::Tcp,
        &v4(127, 0, 0, 1, 80),
    );
    let peer = |segs: [u16; 8]| {
        DefaultHttpPropertyExtractor::connection_properties(&lp, &v6(segs, 1)).peer_address
    };
    assert_eq!(peer([0x2001, 0xdb8, 0, 0, 0, 0, 0, 1]), "2001:db8::1");
    assert_eq!(peer([0, 0, 0, 0, 0, 0, 0, 0]), "::");
    assert_eq!(peer([1, 0, 1, 1, 1, 1, 1, 1]), "1:0:1:1:1:1:1:1");
    assert_eq!(peer([1, 0, 0, 1, 0, 0, 1, 1]), "1::1:0:0:1:1");
    assert_eq!(peer([0, 0, 0, 0, 0, 0xffff, 0xc000, 0x0280]), "::ffff:192.0.2.128");
    assert_eq!(peer([0xfe80, 0, 0, 0, 0x1ff, 0xfe23, 0x4567, 0x890a]), "fe80::1ff:fe23:4567:890a");
}

#[test]
fn ipv6_listener_fallback_bracketed_with_port() {
    let p = DefaultHttpPropertyExtractor::listen_properties(
        NetworkStreamType::Tls,
        &v6([0x2001, 0xdb8, 0, 0, 0, 0, 0, 1], 8443),
    );
    assert_eq!(p.fallback_host, "[2001:db8::1]:8443");
    let p = DefaultHttpPropertyExtractor::listen_properties(
        NetworkStreamType::Tls,
        &v6([0x2001, 0xdb8, 0, 0, 0, 0, 0, 1], 443),
    );
    assert_eq!(p.fallback_host, "2001:db8::1");
    let p = DefaultHttpPropertyExtractor::listen_properties(
        NetworkStreamType::Tls,
        &v6([0, 0, 0, 0, 0, 0, 0, 1], 443),
    );
    assert_eq!(p.fallback_host, "localhost");
}

#[test]
fn request_properties_elides_default_authority_port() {
    let lp = DefaultHttpPropertyExtractor::listen_properties(
        NetworkStreamType::Tcp,
        &v4(10, 0, 0, 2, 80),
    );
    let cp = DefaultHttpPropertyExtractor::connection_properties(&lp, &v4(10, 0, 0, 3, 40000));
    let uri = Uri {
        authority: Some(UriAuthority {
            text: "example.com:80".to_string(),
            host: "example.com".to_string(),
            port: Some(80),
        }),
    };
    let headers = HeaderMap { entries: vec![] };
    let rp = DefaultHttpPropertyExtractor::request_properties(&cp, &uri, &headers);
    assert_eq!(rp.authority.as_deref(), Some("example.com"));
}

#[test]
fn request_properties_none_means_fallback() {
    let lp = DefaultHttpPropertyExtractor::listen_properties(
        NetworkStreamType::Tcp,
        &v4(10, 0, 0, 2, 80),
    );
    let cp = DefaultHttpPropertyExtractor::connection_properties(&lp, &v4(10, 0, 0, 3, 40000));
    let uri = Uri { authority: None };
    let headers = HeaderMap { entries: vec![] };
    let rp = DefaultHttpPropertyExtractor::request_properties(&cp, &uri, &headers);
    assert!(rp.authority.is_none());
}

#[test]
fn builders_are_idempotent() {
    let addr = v4(0, 0, 0, 0, 8443);
    let a = DefaultHttpPropertyExtractor::listen_properties(NetworkStreamType::Tls, &addr);
    let b = DefaultHttpPropertyExtractor::listen_properties(NetworkStreamType::Tls, &addr);
    assert_eq!(a.stream_type, b.stream_type);
    assert_eq!(a.scheme, b.scheme);
    assert_eq!(a.fallback_host, b.fallback_host);
    assert_eq!(a.local_port, b.local_port);

    let peer = v4(198, 51, 100, 7, 51000);
    let ca = DefaultHttpPropertyExtractor::connection_properties(&a, &peer);
    let cb = DefaultHttpPropertyExtractor::connection_properties(&b, &peer);
    assert_eq!(ca.stream_type, cb.stream_type);
    assert_eq!(ca.peer_address, cb.peer_address);
    assert_eq!(ca.peer_port, cb.peer_port);
    assert_eq!(ca.local_port, cb.local_port);

    let uri = Uri { authority: None };
    let headers = HeaderMap { entries: vec![(b"host".to_vec(), b"example.net".to_vec())] };
    let ra = DefaultHttpPropertyExtractor::request_properties(&ca, &uri, &headers);
    let rb = DefaultHttpPropertyExtractor::request_properties(&cb, &uri, &headers);
    assert_eq!(ra.authority, rb.authority);
    assert_eq!(ra.authority.as_deref(), Some("example.net"));
}

fn sample_table() -> ResourceTable {
    ResourceTable {
        entries: vec![
            (
                3,
                NetworkResource::Listener(NetworkStreamListener {
                    stream_type: NetworkStreamType::Tcp,
                    local_address: v4(127, 0, 0, 1, 80),
                }),
            ),
            (
                7,
                NetworkResource::Stream(NetworkStream {
                    stream_type: NetworkStreamType::Tcp,
                    peer_address: v4(127, 0, 0, 1, 40000),
                }),
            ),
        ],
    }
}

#[test]
fn take_listener_consumes_entry() {
    let mut table = sample_table();
    let got = DefaultHttpPropertyExtractor::get_network_stream_listener_for_rid(&mut table, 3);
    let listener = got.ok().expect("listener should be taken");
    assert_eq!(listener.stream_type, NetworkStreamType::Tcp);
    assert_eq!(table.entries.len(), 1);
    // A second acquisition of the same identifier must fail.
    let again = DefaultHttpPropertyExtractor::get_network_stream_listener_for_rid(&mut table, 3);
    assert_eq!(again.err(), Some(ResourceError::NotFound));
}

#[test]
fn take_stream_consumes_entry() {
    let mut table = sample_table();
    let got = DefaultHttpPropertyExtractor::get_network_stream_for_rid(&mut table, 7);
    assert!(got.is_ok());
    assert_eq!(table.entries.len(), 1);
    let again = DefaultHttpPropertyExtractor::get_network_stream_for_rid(&mut table, 7);
    assert_eq!(again.err(), Some(ResourceError::NotFound));
}

#[test]
fn take_wrong_kind_leaves_table_unchanged() {
    let mut table = sample_table();
    let got = DefaultHttpPropertyExtractor::get_network_stream_listener_for_rid(&mut table, 7);
    assert_eq!(got.err(), Some(ResourceError::NotFound));
    assert_eq!(table.entries.len(), 2);
    // The entry is still there and can be taken with the right kind.
    let got = DefaultHttpPropertyExtractor::get_network_stream_for_rid(&mut table, 7);
    assert!(got.is_ok());
}

#[test]
fn take_absent_id_is_not_found() {
    let mut table = sample_table();
    let got = DefaultHttpPropertyExtractor::get_network_stream_for_rid(&mut table, 99);
    assert_eq!(got.err(), Some(ResourceError::NotFound));
    assert_eq!(table.entries.len(), 2);
}
