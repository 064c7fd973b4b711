//! Models of the transport-layer inputs: the kind of stream a listener
//! accepts and the socket address it is bound to, together with the
//! textual rendering of addresses and ports.

use vstd::prelude::*;

verus! {

/// The transport over which a connection is accepted.
#[derive(Clone, Copy, PartialEq, Eq, Structural, Debug)]
pub enum NetworkStreamType {
    /// A plain TCP stream.
    Tcp,
    /// A TLS-wrapped TCP stream.
    Tls,
    /// A unix-domain socket stream.
    Unix,
}

/// An IP address, held as the plain values the canonicalization rules
/// read: four octets for a version-4 address, eight 16-bit segments for a
/// version-6 address.
#[derive(Clone, Copy, Debug)]
pub enum IpAddress {
    V4([u8; 4]),
    V6([u16; 8]),
}

/// A socket address: an IP endpoint, or a unix-domain socket path held as
/// the bytes of its textual form (`None` when the path has no textual
/// form, as for unnamed or abstract sockets).
#[derive(Clone, Debug)]
pub enum NetworkStreamAddress {
    Ip(IpAddress, u16),
    Unix(Option<Vec<u8>>),
}

/// True when the address is a loopback address (`127.0.0.0/8`, `::1`).
pub open spec fn is_loopback(ip: IpAddress) -> bool {
    match ip {
        IpAddress::V4(o) => o[0] == 127,
        IpAddress::V6(s) => s[0] == 0 && s[1] == 0 && s[2] == 0 && s[3] == 0 && s[4] == 0
            && s[5] == 0 && s[6] == 0 && s[7] == 1,
    }
}

/// True when the address is the unspecified "any interface" address
/// (`0.0.0.0`, `::`).
pub open spec fn is_unspecified(ip: IpAddress) -> bool {
    match ip {
        IpAddress::V4(o) => o[0] == 0 && o[1] == 0 && o[2] == 0 && o[3] == 0,
        IpAddress::V6(s) => s[0] == 0 && s[1] == 0 && s[2] == 0 && s[3] == 0 && s[4] == 0
            && s[5] == 0 && s[6] == 0 && s[7] == 0,
    }
}

pub fn ip_is_loopback(ip: &IpAddress) -> (r: bool)
    ensures
        r == is_loopback(*ip),
{
    match ip {
        IpAddress::V4(o) => o[0] == 127,
        IpAddress::V6(s) => {
            s[0] == 0 && s[1] == 0 && s[2] == 0 && s[3] == 0 && s[4] == 0 && s[5] == 0
                && s[6] == 0 && s[7] == 1
        },
    }
}

pub fn ip_is_unspecified(ip: &IpAddress) -> (r: bool)
    ensures
        r == is_unspecified(*ip),
{
    match ip {
        IpAddress::V4(o) => o[0] == 0 && o[1] == 0 && o[2] == 0 && o[3] == 0,
        IpAddress::V6(s) => {
            s[0] == 0 && s[1] == 0 && s[2] == 0 && s[3] == 0 && s[4] == 0 && s[5] == 0
                && s[6] == 0 && s[7] == 0
        },
    }
}

/// The decimal digit character for `n` in `0..10`.
pub open spec fn dec_digit(n: int) -> char {
    if n == 0 {
        '0'
    } else if n == 1 {
        '1'
    } else if n == 2 {
        '2'
    } else if n == 3 {
        '3'
    } else if n == 4 {
        '4'
    } else if n == 5 {
        '5'
    } else if n == 6 {
        '6'
    } else if n == 7 {
        '7'
    } else if n == 8 {
        '8'
    } else {
        '9'
    }
}

/// The lower-case hexadecimal digit character for `n` in `0..16`.
pub open spec fn hex_digit(n: int) -> char {
    if n < 10 {
        dec_digit(n)
    } else if n == 10 {
        'a'
    } else if n == 11 {
        'b'
    } else if n == 12 {
        'c'
    } else if n == 13 {
        'd'
    } else if n == 14 {
        'e'
    } else {
        'f'
    }
}

/// The upper-case hexadecimal digit character for `n` in `0..16`.
pub open spec fn hex_digit_upper(n: int) -> char {
    if n < 10 {
        dec_digit(n)
    } else if n == 10 {
        'A'
    } else if n == 11 {
        'B'
    } else if n == 12 {
        'C'
    } else if n == 13 {
        'D'
    } else if n == 14 {
        'E'
    } else {
        'F'
    }
}

/// The decimal rendering of `n` in `0..65536`, without leading zeros.
pub open spec fn dec_seq(n: int) -> Seq<char> {
    if n < 10 {
        seq![dec_digit(n)]
    } else if n < 100 {
        seq![dec_digit(n / 10), dec_digit(n % 10)]
    } else if n < 1000 {
        seq![dec_digit(n / 100), dec_digit((n / 10) % 10), dec_digit(n % 10)]
    } else if n < 10000 {
        seq![
            dec_digit(n / 1000),
            dec_digit((n / 100) % 10),
            dec_digit((n / 10) % 10),
            dec_digit(n % 10),
        ]
    } else {
        seq![
            dec_digit(n / 10000),
            dec_digit((n / 1000) % 10),
            dec_digit((n / 100) % 10),
            dec_digit((n / 10) % 10),
            dec_digit(n % 10),
        ]
    }
}

/// The lower-case hexadecimal rendering of `n` in `0..65536`, without
/// leading zeros.
pub open spec fn hex_seq(n: int) -> Seq<char> {
    if n < 16 {
        seq![hex_digit(n)]
    } else if n < 256 {
        seq![hex_digit(n / 16), hex_digit(n % 16)]
    } else if n < 4096 {
        seq![hex_digit(n / 256), hex_digit((n / 16) % 16), hex_digit(n % 16)]
    } else {
        seq![
            hex_digit(n / 4096),
            hex_digit((n / 256) % 16),
            hex_digit((n / 16) % 16),
            hex_digit(n % 16),
        ]
    }
}

/// Relies on std's `String::push`: appends the given character to the end
/// of the string.
#[verifier::external_body]
pub(crate) fn push_char(s: &mut String, c: char)
    ensures
        final(s)@ == old(s)@.push(c),
{
    s.push(c);
}

fn dec_digit_char(d: u16) -> (c: char)
    requires
        d < 10,
    ensures
        c == dec_digit(d as int),
{
    if d == 0 {
        '0'
    } else if d == 1 {
        '1'
    } else if d == 2 {
        '2'
    } else if d == 3 {
        '3'
    } else if d == 4 {
        '4'
    } else if d == 5 {
        '5'
    } else if d == 6 {
        '6'
    } else if d == 7 {
        '7'
    } else if d == 8 {
        '8'
    } else {
        '9'
    }
}

fn hex_digit_char(d: u16) -> (c: char)
    requires
        d < 16,
    ensures
        c == hex_digit(d as int),
{
    if d < 10 {
        dec_digit_char(d)
    } else if d == 10 {
        'a'
    } else if d == 11 {
        'b'
    } else if d == 12 {
        'c'
    } else if d == 13 {
        'd'
    } else if d == 14 {
        'e'
    } else {
        'f'
    }
}

/// Appends the decimal rendering of `n` to `s`.
pub fn push_dec_u16(s: &mut String, n: u16)
    ensures
        final(s)@ == old(s)@ + dec_seq(n as int),
{
    let ghost orig: Seq<char> = s@;
    if n < 10 {
        push_char(s, dec_digit_char(n));
        assert(s@ =~= orig + dec_seq(n as int));
    } else if n < 100 {
        push_char(s, dec_digit_char(n / 10));
        push_char(s, dec_digit_char(n % 10));
        assert(s@ =~= orig + dec_seq(n as int));
    } else if n < 1000 {
        push_char(s, dec_digit_char(n / 100));
        push_char(s, dec_digit_char((n / 10) % 10));
        push_char(s, dec_digit_char(n % 10));
        assert(s@ =~= orig + dec_seq(n as int));
    } else if n < 10000 {
        push_char(s, dec_digit_char(n / 1000));
        push_char(s, dec_digit_char((n / 100) % 10));
        push_char(s, dec_digit_char((n / 10) % 10));
        push_char(s, dec_digit_char(n % 10));
        assert(s@ =~= orig + dec_seq(n as int));
    } else {
        push_char(s, dec_digit_char(n / 10000));
        push_char(s, dec_digit_char((n / 1000) % 10));
        push_char(s, dec_digit_char((n / 100) % 10));
        push_char(s, dec_digit_char((n / 10) % 10));
        push_char(s, dec_digit_char(n % 10));
        assert(s@ =~= orig + dec_seq(n as int));
    }
}

/// Appends the lower-case hexadecimal rendering of `n` to `s`.
pub fn push_hex_u16(s: &mut String, n: u16)
    ensures
        final(s)@ == old(s)@ + hex_seq(n as int),
{
    let ghost orig: Seq<char> = s@;
    if n < 16 {
        push_char(s, hex_digit_char(n));
        assert(s@ =~= orig + hex_seq(n as int));
    } else if n < 256 {
        push_char(s, hex_digit_char(n / 16));
        push_char(s, hex_digit_char(n % 16));
        assert(s@ =~= orig + hex_seq(n as int));
    } else if n < 4096 {
        push_char(s, hex_digit_char(n / 256));
        push_char(s, hex_digit_char((n / 16) % 16));
        push_char(s, hex_digit_char(n % 16));
        assert(s@ =~= orig + hex_seq(n as int));
    } else {
        push_char(s, hex_digit_char(n / 4096));
        push_char(s, hex_digit_char((n / 256) % 16));
        push_char(s, hex_digit_char((n / 16) % 16));
        push_char(s, hex_digit_char(n % 16));
        assert(s@ =~= orig + hex_seq(n as int));
    }
}

/// The dotted-decimal rendering of four octets.
pub open spec fn ipv4_seq(o: Seq<u8>) -> Seq<char> {
    dec_seq(o[0] as int) + seq!['.'] + dec_seq(o[1] as int) + seq!['.'] + dec_seq(o[2] as int)
        + seq!['.'] + dec_seq(o[3] as int)
}

/// Appends the dotted-decimal rendering of the four octets to `s`.
pub fn push_ipv4(s: &mut String, o: &[u8; 4])
    ensures
        final(s)@ == old(s)@ + ipv4_seq(o@),
{
    let ghost orig: Seq<char> = s@;
    push_dec_u16(s, o[0] as u16);
    push_char(s, '.');
    push_dec_u16(s, o[1] as u16);
    push_char(s, '.');
    push_dec_u16(s, o[2] as u16);
    push_char(s, '.');
    push_dec_u16(s, o[3] as u16);
    assert(s@ =~= orig + ipv4_seq(o@));
}

/// The number of consecutive zero segments starting at index `i`.
pub open spec fn zero_run_len(s: Seq<u16>, i: int) -> int
    decreases s.len() - i,
{
    if i < 0 || i >= s.len() {
        0
    } else if s[i] != 0 {
        0
    } else {
        1 + zero_run_len(s, i + 1)
    }
}

/// The length of the longest run of zero segments starting at or after `i`.
pub open spec fn max_zero_run(s: Seq<u16>, i: int) -> int
    decreases s.len() - i,
{
    if i < 0 || i >= s.len() {
        0
    } else {
        let here = zero_run_len(s, i);
        let rest = max_zero_run(s, i + 1);
        if here >= rest {
            here
        } else {
            rest
        }
    }
}

/// The start of the leftmost longest run of zero segments at or after `i`
/// (`s.len()` when the range is empty).
pub open spec fn best_zero_run_start(s: Seq<u16>, i: int) -> int
    decreases s.len() - i,
{
    if i < 0 || i >= s.len() {
        s.len() as int
    } else if zero_run_len(s, i) >= max_zero_run(s, i + 1) {
        i
    } else {
        best_zero_run_start(s, i + 1)
    }
}

proof fn lemma_zero_run_bounds(s: Seq<u16>, i: int)
    requires
        0 <= i <= s.len(),
    ensures
        0 <= zero_run_len(s, i) <= s.len() - i,
    decreases s.len() - i,
{
    if i < s.len() && s[i] == 0 {
        lemma_zero_run_bounds(s, i + 1);
    }
}

proof fn lemma_zero_run_split(s: Seq<u16>, i: int, j: int)
    requires
        0 <= i <= j <= s.len(),
        forall|k: int| i <= k < j ==> s[k] == 0,
    ensures
        zero_run_len(s, i) == (j - i) + zero_run_len(s, j),
    decreases j - i,
{
    if i < j {
        lemma_zero_run_split(s, i + 1, j);
    }
}

proof fn lemma_best_run(s: Seq<u16>, i: int)
    requires
        0 <= i <= s.len(),
    ensures
        0 <= max_zero_run(s, i),
        i <= best_zero_run_start(s, i) <= s.len(),
        best_zero_run_start(s, i) < s.len() ==> zero_run_len(s, best_zero_run_start(s, i))
            == max_zero_run(s, i),
        max_zero_run(s, i) > 0 ==> best_zero_run_start(s, i) < s.len(),
    decreases s.len() - i,
{
    if i < s.len() {
        lemma_zero_run_bounds(s, i);
        lemma_best_run(s, i + 1);
    }
}

/// The segments rendered in lower-case hexadecimal, joined by `:`.
pub open spec fn hex_groups_seq(s: Seq<u16>) -> Seq<char>
    decreases s.len(),
{
    if s.len() == 0 {
        Seq::empty()
    } else if s.len() == 1 {
        hex_seq(s[0] as int)
    } else {
        hex_seq(s[0] as int) + seq![':'] + hex_groups_seq(s.drop_first())
    }
}

proof fn lemma_hex_groups_push(s: Seq<u16>, x: u16)
    ensures
        s.len() == 0 ==> hex_groups_seq(s.push(x)) == hex_seq(x as int),
        s.len() > 0 ==> hex_groups_seq(s.push(x)) == hex_groups_seq(s) + seq![':'] + hex_seq(
            x as int,
        ),
    decreases s.len(),
{
    if s.len() == 0 {
        assert(s.push(x).len() == 1);
        assert(s.push(x)[0] == x);
    } else {
        lemma_hex_groups_push(s.drop_first(), x);
        assert(s.push(x).drop_first() =~= s.drop_first().push(x));
        assert(hex_groups_seq(s.push(x)) =~= hex_groups_seq(s) + seq![':'] + hex_seq(x as int));
    }
}

/// True when the segments are those of an IPv4-mapped address, which is
/// rendered with its trailing four octets in dotted-decimal form.
pub open spec fn ipv6_mapped_v4(s: Seq<u16>) -> bool {
    s.len() == 8 && s[0] == 0 && s[1] == 0 && s[2] == 0 && s[3] == 0 && s[4] == 0 && s[5]
        == 0xffff
}

/// The textual rendering of eight IPv6 segments: the IPv4-mapped form when
/// it applies, otherwise the leftmost longest run of at least two zero
/// segments is compressed to `::`.
pub open spec fn ipv6_seq(s: Seq<u16>) -> Seq<char> {
    if ipv6_mapped_v4(s) {
        seq![':', ':', 'f', 'f', 'f', 'f', ':'] + ipv4_seq(
            seq![(s[6] / 256) as u8, (s[6] % 256) as u8, (s[7] / 256) as u8, (s[7] % 256) as u8],
        )
    } else if max_zero_run(s, 0) >= 2 {
        hex_groups_seq(s.take(best_zero_run_start(s, 0))) + seq![':', ':'] + hex_groups_seq(
            s.skip(best_zero_run_start(s, 0) + max_zero_run(s, 0)),
        )
    } else {
        hex_groups_seq(s)
    }
}

/// Appends the textual rendering of the eight segments to `s`.
pub fn push_ipv6(s: &mut String, segs: &[u16; 8])
    ensures
        final(s)@ == old(s)@ + ipv6_seq(segs@),
{
    let ghost orig: Seq<char> = s@;
    let ghost v: Seq<u16> = segs@;
    if segs[0] == 0 && segs[1] == 0 && segs[2] == 0 && segs[3] == 0 && segs[4] == 0 && segs[5]
        == 0xffff {
        push_char(s, ':');
        push_char(s, ':');
        push_char(s, 'f');
        push_char(s, 'f');
        push_char(s, 'f');
        push_char(s, 'f');
        push_char(s, ':');
        push_dec_u16(s, segs[6] / 256);
        push_char(s, '.');
        push_dec_u16(s, segs[6] % 256);
        push_char(s, '.');
        push_dec_u16(s, segs[7] / 256);
        push_char(s, '.');
        push_dec_u16(s, segs[7] % 256);
        assert(s@ =~= orig + ipv6_seq(v));
    } else {
        let mut best_len: usize = 0;
        let mut best_start: usize = 8;
        let mut i: usize = 8;
        while i > 0
            invariant
                i <= 8,
                v == segs@,
                v.len() == 8,
                best_len as int == max_zero_run(v, i as int),
                best_start as int == best_zero_run_start(v, i as int),
            decreases i,
        {
            i = i - 1;
            let mut j: usize = i;
            while j < 8 && segs[j] == 0
                invariant
                    i <= j <= 8,
                    v == segs@,
                    v.len() == 8,
                    forall|k: int| i <= k < j ==> v[k] == 0,
                decreases 8 - j,
            {
                j = j + 1;
            }
            proof {
                lemma_zero_run_split(v, i as int, j as int);
                assert(zero_run_len(v, j as int) == 0);
            }
            let run: usize = j - i;
            if run >= best_len {
                best_len = run;
                best_start = i;
            }
        }
        proof {
            lemma_best_run(v, 0);
            if max_zero_run(v, 0) > 0 {
                lemma_zero_run_bounds(v, best_zero_run_start(v, 0));
            }
        }
        if best_len >= 2 {
            let mut k: usize = 0;
            while k < best_start
                invariant
                    k <= best_start,
                    best_start <= 8,
                    v == segs@,
                    v.len() == 8,
                    s@ == orig + hex_groups_seq(v.take(k as int)),
                decreases best_start - k,
            {
                if k > 0 {
                    push_char(s, ':');
                }
                push_hex_u16(s, segs[k]);
                proof {
                    lemma_hex_groups_push(v.take(k as int), v[k as int]);
                    assert(v.take(k as int).push(v[k as int]) =~= v.take(k as int + 1));
                    assert(s@ =~= orig + hex_groups_seq(v.take(k as int + 1)));
                }
                k = k + 1;
            }
            push_char(s, ':');
            push_char(s, ':');
            let ghost base: Seq<char> = orig + hex_groups_seq(v.take(best_start as int)) + seq![
                ':',
                ':',
            ];
            assert(s@ =~= base);
            let start2: usize = best_start + best_len;
            let mut k2: usize = start2;
            while k2 < 8
                invariant
                    start2 <= k2 <= 8,
                    v == segs@,
                    v.len() == 8,
                    s@ == base + hex_groups_seq(v.subrange(start2 as int, k2 as int)),
                decreases 8 - k2,
            {
                if k2 > start2 {
                    push_char(s, ':');
                }
                push_hex_u16(s, segs[k2]);
                proof {
                    lemma_hex_groups_push(
                        v.subrange(start2 as int, k2 as int),
                        v[k2 as int],
                    );
                    assert(v.subrange(start2 as int, k2 as int).push(v[k2 as int])
                        =~= v.subrange(start2 as int, k2 as int + 1));
                    assert(s@ =~= base + hex_groups_seq(
                        v.subrange(start2 as int, k2 as int + 1),
                    ));
                }
                k2 = k2 + 1;
            }
            assert(v.subrange(start2 as int, 8) =~= v.skip(
                best_zero_run_start(v, 0) + max_zero_run(v, 0),
            ));
            assert(s@ =~= orig + ipv6_seq(v));
        } else {
            let mut k: usize = 0;
            while k < 8
                invariant
                    k <= 8,
                    v == segs@,
                    v.len() == 8,
                    s@ == orig + hex_groups_seq(v.take(k as int)),
                decreases 8 - k,
            {
                if k > 0 {
                    push_char(s, ':');
                }
                push_hex_u16(s, segs[k]);
                proof {
                    lemma_hex_groups_push(v.take(k as int), v[k as int]);
                    assert(v.take(k as int).push(v[k as int]) =~= v.take(k as int + 1));
                    assert(s@ =~= orig + hex_groups_seq(v.take(k as int + 1)));
                }
                k = k + 1;
            }
            assert(v.take(8) =~= v);
            assert(s@ =~= orig + ipv6_seq(v));
        }
    }
}

/// The bare textual rendering of an IP address, without port or brackets.
pub open spec fn ip_seq(ip: IpAddress) -> Seq<char> {
    match ip {
        IpAddress::V4(o) => ipv4_seq(o@),
        IpAddress::V6(g) => ipv6_seq(g@),
    }
}

/// Appends the bare textual rendering of `ip` to `s`.
pub fn push_ip(s: &mut String, ip: &IpAddress)
    ensures
        final(s)@ == old(s)@ + ip_seq(*ip),
{
    match ip {
        IpAddress::V4(o) => push_ipv4(s, o),
        IpAddress::V6(g) => push_ipv6(s, g),
    }
}

/// The bare rendering of an IP address is never empty and never starts
/// with a letter outside the hexadecimal range, so it can never read as
/// the literal `localhost`.
pub(crate) proof fn lemma_ip_seq_first(ip: IpAddress)
    ensures
        ip_seq(ip).len() > 0,
        ip_seq(ip)[0] != 'l',
{
    assert(forall|n: int| dec_digit(n) != 'l');
    assert(forall|n: int| hex_digit(n) != 'l');
    match ip {
        IpAddress::V4(o) => {
            assert(dec_seq(o@[0] as int).len() >= 1);
            assert(dec_seq(o@[0] as int)[0] != 'l');
        },
        IpAddress::V6(g) => {
            let s = g@;
            if ipv6_mapped_v4(s) {
            } else if max_zero_run(s, 0) >= 2 {
                lemma_best_run(s, 0);
                let b = best_zero_run_start(s, 0);
                if b == 0 {
                    assert(s.take(0).len() == 0);
                    assert(hex_groups_seq(s.take(0)).len() == 0);
                } else {
                    let p = s.take(b);
                    assert(p.len() == b);
                    assert(hex_groups_seq(p)[0] == hex_seq(p[0] as int)[0]);
                    assert(hex_seq(p[0] as int).len() >= 1);
                    assert(hex_seq(p[0] as int)[0] != 'l');
                }
            } else {
                assert(hex_groups_seq(s)[0] == hex_seq(s[0] as int)[0]);
                assert(hex_seq(s[0] as int).len() >= 1);
                assert(hex_seq(s[0] as int)[0] != 'l');
            }
        },
    }
}

/// The textual rendering of a socket address: `ip:port`, with the IP in
/// brackets when it is a version-6 address.
pub open spec fn sock_addr_seq(ip: IpAddress, port: u16) -> Seq<char> {
    match ip {
        IpAddress::V4(_) => ip_seq(ip) + seq![':'] + dec_seq(port as int),
        IpAddress::V6(_) => seq!['['] + ip_seq(ip) + seq![']', ':'] + dec_seq(port as int),
    }
}

/// Appends the textual rendering of the socket address to `s`.
pub fn push_sock_addr(s: &mut String, ip: &IpAddress, port: u16)
    ensures
        final(s)@ == old(s)@ + sock_addr_seq(*ip, port),
{
    let ghost orig: Seq<char> = s@;
    match ip {
        IpAddress::V4(o) => {
            push_ipv4(s, o);
            push_char(s, ':');
            push_dec_u16(s, port);
            assert(s@ =~= orig + sock_addr_seq(*ip, port));
        },
        IpAddress::V6(g) => {
            push_char(s, '[');
            push_ipv6(s, g);
            push_char(s, ']');
            push_char(s, ':');
            push_dec_u16(s, port);
            assert(s@ =~= orig + sock_addr_seq(*ip, port));
        },
    }
}

} // verus!
