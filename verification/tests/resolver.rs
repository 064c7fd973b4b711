use http_props::net::IpAddress;
use http_props::net::NetworkStreamAddress;
use http_props::net::NetworkStreamType;
use http_props::properties::req_host_from_addr;
use http_props::properties::req_scheme_from_stream_type;
use http_props::request::HeaderMap;
use http_props::request::Uri;
use http_props::request::UriAuthority;
use http_props::request::header_value_text;
use http_props::request::req_host;

fn v4(a: u8, b: u8, c: u8, d: u8, port: u16) -> NetworkStreamAddress {
    NetworkStreamAddress::Ip(IpAddress::V4([a, b, c, d]), port)
}

fn header(name: &[u8], value: &[u8]) -> (Vec<u8>, Vec<u8>) {
    (name.to_vec(), value.to_vec())
}

fn headers_of(entries: Vec<(Vec<u8>, Vec<u8>)>) -> HeaderMap {
    HeaderMap { entries }
}

fn authority(text: &str, host: &str, port: Option<u16>) -> Uri {
    Uri {
        authority: Some(UriAuthority {
            text: text.to_string(),
            host: host.to_string(),
            port,
        }),
    }
}

#[test]
fn scheme_per_transport() {
    assert_eq!(req_scheme_from_stream_type(NetworkStreamType::Tcp), "http://");
    assert_eq!(req_scheme_from_stream_type(NetworkStreamType::Tls), "https://");
    assert_eq!(req_scheme_from_stream_type(NetworkStreamType::Unix), "http+unix://");
}

#[test]
fn fallback_loopback_conventional_port_dropped() {
    let s = req_host_from_addr(NetworkStreamType::Tcp, &v4(127, 0, 0, 1, 80));
    assert_eq!(s, "localhost");
}

#[test]
fn fallback_loopback_other_port_retained() {
    let s = req_host_from_addr(NetworkStreamType::Tcp, &v4(127, 0, 0, 1, 8080));
    assert_eq!(s, "localhost:8080");
}

#[test]
fn fallback_unspecified_treated_as_loopback() {
    let s = req_host_from_addr(NetworkStreamType::Tls, &v4(0, 0, 0, 0, 443));
    assert_eq!(s, "localhost");
}

#[test]
fn fallback_plain_ip_conventional_and_other_port() {
    let s = req_host_from_addr(NetworkStreamType::Tls, &v4(203, 0, 113, 5, 443));
    assert_eq!(s, "203.0.113.5");
    let s = req_host_from_addr(NetworkStreamType::Tls, &v4(203, 0, 113, 5, 8443));
    assert_eq!(s, "203.0.113.5:8443");
}

#[test]
fn fallback_port_edges() {
    let s = req_host_from_addr(NetworkStreamType::Tcp, &v4(127, 0, 0, 1, 0));
    assert_eq!(s, "localhost:0");
    let s = req_host_from_addr(NetworkStreamType::Tcp, &v4(127, 0, 0, 1, 65535));
    assert_eq!(s, "localhost:65535");
    // The conventional port of the other transport is not elided.
    let s = req_host_from_addr(NetworkStreamType::Tcp, &v4(203, 0, 113, 5, 443));
    assert_eq!(s, "203.0.113.5:443");
}

#[test]
fn fallback_unix_path_percent_encoded() {
    let addr = NetworkStreamAddress::Unix(Some(b"/tmp/sock".to_vec()));
    let s = req_host_from_addr(NetworkStreamType::Unix, &addr);
    assert_eq!(s, "%2Ftmp%2Fsock");
    // The token decodes back to the original path.
    let decoded: Vec<u8> = percent_encoding::percent_decode(s.as_bytes()).collect();
    assert_eq!(decoded, b"/tmp/sock".to_vec());
}

#[test]
fn fallback_unix_path_without_text_is_empty() {
    let addr = NetworkStreamAddress::Unix(None);
    let s = req_host_from_addr(NetworkStreamType::Unix, &addr);
    assert_eq!(s, "");
}

#[test]
fn resolver_path_based_always_none() {
    let uri = authority("example.com:80", "example.com", Some(80));
    let headers = headers_of(vec![header(b"host", b"example.org")]);
    let r = req_host(&uri, &headers, NetworkStreamType::Unix, 0);
    assert!(r.is_none());
}

#[test]
fn resolver_authority_default_port_elided() {
    let uri = authority("example.com:80", "example.com", Some(80));
    let headers = headers_of(vec![]);
    let r = req_host(&uri, &headers, NetworkStreamType::Tcp, 80);
    assert_eq!(r.as_deref(), Some("example.com"));
}

#[test]
fn resolver_authority_other_port_verbatim() {
    let uri = authority("example.com:8080", "example.com", Some(8080));
    let headers = headers_of(vec![]);
    let r = req_host(&uri, &headers, NetworkStreamType::Tcp, 8080);
    assert_eq!(r.as_deref(), Some("example.com:8080"));
}

#[test]
fn resolver_authority_port_decides_not_local_port() {
    // The elision goes by the port written in the authority itself: a
    // non-default authority port is kept verbatim even when the
    // connection's local port is the conventional default.
    let uri = authority("example.com:8080", "example.com", Some(8080));
    let headers = headers_of(vec![]);
    let r = req_host(&uri, &headers, NetworkStreamType::Tcp, 80);
    assert_eq!(r.as_deref(), Some("example.com:8080"));
}

#[test]
fn resolver_authority_without_port_kept_verbatim() {
    let uri = authority("user@example.com", "example.com", None);
    let headers = headers_of(vec![]);
    let r = req_host(&uri, &headers, NetworkStreamType::Tcp, 80);
    assert_eq!(r.as_deref(), Some("user@example.com"));
}

#[test]
fn resolver_authority_outranks_header() {
    let uri = authority("a.example:9", "a.example", Some(9));
    let headers = headers_of(vec![header(b"host", b"b.example")]);
    let r = req_host(&uri, &headers, NetworkStreamType::Tcp, 8080);
    assert_eq!(r.as_deref(), Some("a.example:9"));
}

#[test]
fn resolver_tls_default_port() {
    // The redundant default port is dropped whatever the local port is,
    // and the other transport's default is not treated as this one's.
    let uri = authority("example.com:443", "example.com", Some(443));
    let headers = headers_of(vec![]);
    let r = req_host(&uri, &headers, NetworkStreamType::Tls, 443);
    assert_eq!(r.as_deref(), Some("example.com"));
    let r = req_host(&uri, &headers, NetworkStreamType::Tls, 8443);
    assert_eq!(r.as_deref(), Some("example.com"));
    let r = req_host(&uri, &headers, NetworkStreamType::Tcp, 80);
    assert_eq!(r.as_deref(), Some("example.com:443"));
}

#[test]
fn resolver_header_used_without_authority() {
    let uri = Uri { authority: None };
    let headers = headers_of(vec![header(b"host", b"example.org:8080")]);
    let r = req_host(&uri, &headers, NetworkStreamType::Tcp, 8080);
    assert_eq!(r.as_deref(), Some("example.org:8080"));
}

#[test]
fn resolver_header_lookup_ignores_ascii_case() {
    let uri = Uri { authority: None };
    let headers = headers_of(vec![header(b"X-Other", b"nope"), header(b"HoSt", b"example.org")]);
    let r = req_host(&uri, &headers, NetworkStreamType::Tcp, 80);
    assert_eq!(r.as_deref(), Some("example.org"));
}

#[test]
fn resolver_first_host_header_wins() {
    let uri = Uri { authority: None };
    let headers = headers_of(vec![header(b"host", b"first.example"), header(b"host", b"second.example")]);
    let r = req_host(&uri, &headers, NetworkStreamType::Tcp, 80);
    assert_eq!(r.as_deref(), Some("first.example"));
}

#[test]
fn resolver_nothing_found_is_none() {
    let uri = Uri { authority: None };
    let headers = headers_of(vec![header(b"accept", b"*/*")]);
    let r = req_host(&uri, &headers, NetworkStreamType::Tcp, 80);
    assert!(r.is_none());
}

#[test]
fn resolver_non_text_header_mapped_byte_for_byte() {
    let uri = Uri { authority: None };
    let bytes: Vec<u8> = vec![0x6e, 0xff, 0x74];
    let headers = headers_of(vec![header(b"host", bytes.as_slice())]);
    let r = req_host(&uri, &headers, NetworkStreamType::Tcp, 80).unwrap();
    assert_eq!(r.chars().count(), 3);
    let cs: Vec<char> = r.chars().collect();
    assert_eq!(cs[0], 'n');
    assert_eq!(cs[1], char::from(0xffu8));
    assert_eq!(cs[2], 't');
}

#[test]
fn header_value_text_keeps_length_and_code_points() {
    let bytes: Vec<u8> = vec![0x80, 0x00, 0x41, 0xfe];
    let s = header_value_text(&bytes);
    let cs: Vec<char> = s.chars().collect();
    assert_eq!(cs.len(), bytes.len());
    for (c, b) in cs.iter().zip(bytes.iter()) {
        assert_eq!(*c as u32, *b as u32);
    }
}
