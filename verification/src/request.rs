//! Models of the parsing-layer inputs — a request URI's authority
//! component and a header collection — and the host-resolution fallback
//! chain: URI authority first, then the `host` header, then nothing.

use vstd::prelude::*;

use crate::net::NetworkStreamType;

verus! {

/// The authority component of a request URI, as the plain values the
/// resolution rules read: the full component text, its host part (the
/// text without any user-info prefix or port suffix), and the port
/// explicitly written in it, if any.
pub struct UriAuthority {
    pub text: String,
    pub host: String,
    pub port: Option<u16>,
}

/// A request URI, as the resolution rules read it: at most its authority
/// component, which an absolute-form request line carries and an
/// origin-form one does not.
pub struct Uri {
    pub authority: Option<UriAuthority>,
}

/// A header collection: name and value pairs in wire order, both held as
/// raw bytes. Names are looked up without regard to ASCII case.
pub struct HeaderMap {
    pub entries: Vec<(Vec<u8>, Vec<u8>)>,
}

/// The byte with ASCII upper-case letters folded to lower case.
pub open spec fn ascii_lower(b: u8) -> u8 {
    if 65 <= b && b <= 90 {
        (b + 32) as u8
    } else {
        b
    }
}

/// True when the name is `host`, compared without regard to ASCII case.
pub open spec fn is_host_name(name: Seq<u8>) -> bool {
    name.len() == 4 && ascii_lower(name[0]) == 104 && ascii_lower(name[1]) == 111 && ascii_lower(
        name[2],
    ) == 115 && ascii_lower(name[3]) == 116
}

/// The value of the first `host` header in wire order, if any.
pub open spec fn host_lookup(s: Seq<(Vec<u8>, Vec<u8>)>) -> Option<Seq<u8>>
    decreases s.len(),
{
    if s.len() == 0 {
        None
    } else if is_host_name(s[0].0@) {
        Some(s[0].1@)
    } else {
        host_lookup(s.drop_first())
    }
}

impl HeaderMap {
    /// Returns the value of the first `host` header, if any.
    pub fn host_value(&self) -> (r: Option<&Vec<u8>>)
        ensures
            match r {
                Some(v) => host_lookup(self.entries@) == Some(v@),
                None => host_lookup(self.entries@) is None,
            },
    {
        let n = self.entries.len();
        let mut i: usize = 0;
        proof {
            assert(self.entries@.skip(0) =~= self.entries@);
        }
        while i < n
            invariant
                i <= n,
                n == self.entries.len(),
                host_lookup(self.entries@) == host_lookup(self.entries@.skip(i as int)),
            decreases n - i,
        {
            let name = &self.entries[i].0;
            if name.len() == 4 {
                let b0 = ascii_lower_byte(name[0]);
                let b1 = ascii_lower_byte(name[1]);
                let b2 = ascii_lower_byte(name[2]);
                let b3 = ascii_lower_byte(name[3]);
                if b0 == 104 && b1 == 111 && b2 == 115 && b3 == 116 {
                    assert(self.entries@.skip(i as int)[0] == self.entries@[i as int]);
                    return Some(&self.entries[i].1);
                }
            }
            proof {
                let tail = self.entries@.skip(i as int);
                assert(tail[0] == self.entries@[i as int]);
                assert(!is_host_name(tail[0].0@));
                assert(tail.drop_first() =~= self.entries@.skip(i as int + 1));
            }
            i = i + 1;
        }
        proof {
            assert(self.entries@.skip(n as int).len() == 0);
        }
        None
    }
}

fn ascii_lower_byte(b: u8) -> (r: u8)
    ensures
        r == ascii_lower(b),
{
    if 65 <= b && b <= 90 {
        b + 32
    } else {
        b
    }
}

/// Each byte read as the character with the same code point, so that a
/// value that is not valid text still maps to a string of equal length
/// with no byte dropped.
pub open spec fn latin1_seq(bytes: Seq<u8>) -> Seq<char> {
    Seq::new(bytes.len(), |i: int| bytes[i] as char)
}

/// Builds the string whose characters are the given bytes' code points.
pub fn header_value_text(bytes: &Vec<u8>) -> (r: String)
    ensures
        r@ == latin1_seq(bytes@),
{
    let mut s = String::new();
    let n = bytes.len();
    let mut i: usize = 0;
    while i < n
        invariant
            i <= n,
            n == bytes.len(),
            s@ =~= latin1_seq(bytes@.take(i as int)),
        decreases n - i,
    {
        let b = bytes[i];
        crate::net::push_char(&mut s, b as char);
        proof {
            assert(s@ =~= latin1_seq(bytes@.take(i as int + 1)));
        }
        i = i + 1;
    }
    proof {
        assert(bytes@.take(n as int) =~= bytes@);
    }
    s
}

/// Law: reading header bytes as characters never fails, keeps the
/// length, and maps each byte to its own code point.
pub proof fn lemma_header_text_preserves_bytes(bytes: Seq<u8>)
    ensures
        latin1_seq(bytes).len() == bytes.len(),
        forall|i: int| 0 <= i < bytes.len() ==> latin1_seq(bytes)[i] == bytes[i] as char,
{
}

/// The authority a request logically targets, if one can be determined
/// from the request itself: the URI's authority component when present
/// (reduced to its host part when the port written in the authority is
/// the transport's conventional default, so the redundant port is
/// dropped; kept verbatim otherwise), otherwise the `host` header read
/// as text, otherwise nothing. The connection's local port plays no
/// part in the choice.
pub open spec fn req_host_spec(
    uri: Uri,
    headers: HeaderMap,
    addr_type: NetworkStreamType,
    port: u16,
) -> Option<Seq<char>> {
    if addr_type == NetworkStreamType::Unix {
        None
    } else {
        match uri.authority {
            Some(auth) => if (addr_type == NetworkStreamType::Tcp && auth.port == Some(80u16))
                || (addr_type == NetworkStreamType::Tls && auth.port == Some(443u16)) {
                Some(auth.host@)
            } else {
                Some(auth.text@)
            },
            None => match host_lookup(headers.entries@) {
                Some(v) => Some(latin1_seq(v)),
                None => None,
            },
        }
    }
}

/// Law: over a path-addressed transport no authority is ever derived
/// from the request, whatever its URI and headers hold.
pub proof fn lemma_path_based_always_none(uri: Uri, headers: HeaderMap, port: u16)
    ensures
        req_host_spec(uri, headers, NetworkStreamType::Unix, port) is None,
{
}

/// Determines the authority the request targets, by the fallback chain:
/// URI authority, then `host` header, then `None` (the caller must use
/// the listener's fallback host).
pub fn req_host(uri: &Uri, headers: &HeaderMap, addr_type: NetworkStreamType, port: u16) -> (r:
    Option<String>)
    ensures
        (match r {
            Some(s) => req_host_spec(*uri, *headers, addr_type, port) == Some(s@),
            None => req_host_spec(*uri, *headers, addr_type, port) is None,
        }),
{
    // A path-addressed socket is itself the only meaningful target.
    if addr_type == NetworkStreamType::Unix {
        return None;
    }
    // An explicit authority is rare, but authoritative when present.
    match &uri.authority {
        Some(auth) => {
            match auth.port {
                Some(p) => {
                    if (addr_type == NetworkStreamType::Tcp && p == 80) || (addr_type
                        == NetworkStreamType::Tls && p == 443) {
                        return Some(auth.host.clone());
                    }
                },
                None => {},
            }
            Some(auth.text.clone())
        },
        None => {
            match headers.host_value() {
                Some(v) => Some(header_value_text(v)),
                None => None,
            }
        },
    }
}

} // verus!
