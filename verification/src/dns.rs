//! DNS encryption protocol selection.

use vstd::prelude::*;

verus! {

use vstd::string::StringSliceAdditionalSpecFns;

/// An encrypted transport for talking to an upstream DNS server.
#[derive(Clone, Copy, Debug, PartialEq, Eq, Structural)]
pub enum DnsEncryptionProtocol {
    Tls,
    Https,
    H3,
    Quic,
}

/// A protocol name byte after case folding: ASCII uppercase letters are
/// lowered and `-` becomes `_`.
pub open spec fn spec_norm_byte(b: u8) -> u8 {
    if 65 <= b <= 90 {
        (b + 32) as u8
    } else if b == 45 {
        95u8
    } else {
        b
    }
}

/// A protocol name after case folding, byte for byte.
pub open spec fn spec_norm(s: Seq<u8>) -> Seq<u8> {
    s.map_values(|b: u8| spec_norm_byte(b))
}

/// The protocol a folded name denotes, if any.
pub open spec fn spec_protocol_of(s: Seq<u8>) -> Option<DnsEncryptionProtocol> {
    let n = spec_norm(s);
    if n == "tls".spec_bytes() || n == "dns_over_tls".spec_bytes() || n
        == "dnsovertls".spec_bytes() || n == "dot".spec_bytes() {
        Some(DnsEncryptionProtocol::Tls)
    } else if n == "https".spec_bytes() || n == "h2".spec_bytes() || n
        == "dns_over_https".spec_bytes() || n == "dnsoverhttps".spec_bytes() || n
        == "doh".spec_bytes() {
        Some(DnsEncryptionProtocol::Https)
    } else if n == "h3".spec_bytes() || n == "http/3".spec_bytes() || n
        == "dns_over_http/3".spec_bytes() || n == "dnsoverhttp/3".spec_bytes() || n
        == "doh3".spec_bytes() {
        Some(DnsEncryptionProtocol::H3)
    } else if n == "quic".spec_bytes() || n == "dns_over_quic".spec_bytes() || n
        == "dnsoverquic".spec_bytes() || n == "doq".spec_bytes() {
        Some(DnsEncryptionProtocol::Quic)
    } else {
        None
    }
}

/// Byte-for-byte slice equality.
fn bytes_eq(a: &[u8], b: &[u8]) -> (r: bool)
    ensures
        r == (a@ == b@),
{
    let n = a.len();
    if n != b.len() {
        proof {
            assert(a@ != b@);
        }
        return false;
    }
    let mut i: usize = 0;
    while i < n
        invariant
            n == a@.len(),
            n == b@.len(),
            i <= n,
            forall|j: int| 0 <= j < i ==> a@[j] == b@[j],
        decreases n - i,
    {
        if *vstd::slice::slice_index_get(a, i) != *vstd::slice::slice_index_get(b, i) {
            return false;
        }
        i += 1;
    }
    proof {
        assert(a@ =~= b@);
    }
    true
}

impl DnsEncryptionProtocol {
    /// The protocol named by `s`, accepting the common aliases in any
    /// ASCII case, with `-` and `_` interchangeable.
    pub fn from_str(s: &str) -> (r: Option<DnsEncryptionProtocol>)
        ensures
            r == spec_protocol_of(s.spec_bytes()),
    {
        let bytes = s.as_bytes();
        let n = bytes.len();
        let mut norm: Vec<u8> = Vec::with_capacity(n);
        let mut i: usize = 0;
        while i < n
            invariant
                n == bytes@.len(),
                i <= n,
                norm@.len() == i,
                forall|j: int| 0 <= j < i ==> norm@[j] == spec_norm_byte(bytes@[j]),
            decreases n - i,
        {
            let b = *vstd::slice::slice_index_get(bytes, i);
            let folded: u8 = if 65 <= b && b <= 90 {
                b + 32
            } else if b == 45 {
                95
            } else {
                b
            };
            norm.push(folded);
            i += 1;
        }
        proof {
            assert(norm@ =~= spec_norm(s.spec_bytes()));
        }
        let m = norm.as_slice();
        if bytes_eq(m, "tls".as_bytes()) || bytes_eq(m, "dns_over_tls".as_bytes()) || bytes_eq(
            m,
            "dnsovertls".as_bytes(),
        ) || bytes_eq(m, "dot".as_bytes()) {
            Some(DnsEncryptionProtocol::Tls)
        } else if bytes_eq(m, "https".as_bytes()) || bytes_eq(m, "h2".as_bytes()) || bytes_eq(
            m,
            "dns_over_https".as_bytes(),
        ) || bytes_eq(m, "dnsoverhttps".as_bytes()) || bytes_eq(m, "doh".as_bytes()) {
            Some(DnsEncryptionProtocol::Https)
        } else if bytes_eq(m, "h3".as_bytes()) || bytes_eq(m, "http/3".as_bytes()) || bytes_eq(
            m,
            "dns_over_http/3".as_bytes(),
        ) || bytes_eq(m, "dnsoverhttp/3".as_bytes()) || bytes_eq(m, "doh3".as_bytes()) {
            Some(DnsEncryptionProtocol::H3)
        } else if bytes_eq(m, "quic".as_bytes()) || bytes_eq(m, "dns_over_quic".as_bytes())
            || bytes_eq(m, "dnsoverquic".as_bytes()) || bytes_eq(m, "doq".as_bytes()) {
            Some(DnsEncryptionProtocol::Quic)
        } else {
            None
        }
    }

    /// The display name of the protocol.
    pub fn as_str(&self) -> (r: &'static str)
        ensures
            r@ == self.spec_str(),
    {
        match self {
            DnsEncryptionProtocol::Tls => "DnsOverTls",
            DnsEncryptionProtocol::Https => "DnsOverHttps",
            DnsEncryptionProtocol::H3 => "DnsOverHttp/3",
            DnsEncryptionProtocol::Quic => "DnsOverQuic",
        }
    }

    /// The display name of the protocol, as a specification value.
    pub open spec fn spec_str(&self) -> Seq<char> {
        match self {
            DnsEncryptionProtocol::Tls => "DnsOverTls"@,
            DnsEncryptionProtocol::Https => "DnsOverHttps"@,
            DnsEncryptionProtocol::H3 => "DnsOverHttp/3"@,
            DnsEncryptionProtocol::Quic => "DnsOverQuic"@,
        }
    }

    /// The IANA default port of the protocol.
    pub fn default_port(&self) -> (r: u16)
        ensures
            r == self.spec_default_port(),
    {
        match self {
            DnsEncryptionProtocol::Tls => 853,
            DnsEncryptionProtocol::Https => 443,
            DnsEncryptionProtocol::H3 => 443,
            DnsEncryptionProtocol::Quic => 853,
        }
    }

    /// The IANA default port, as a specification value.
    pub open spec fn spec_default_port(&self) -> u16 {
        match self {
            DnsEncryptionProtocol::Tls => 853u16,
            DnsEncryptionProtocol::Https => 443u16,
            DnsEncryptionProtocol::H3 => 443u16,
            DnsEncryptionProtocol::Quic => 853u16,
        }
    }
}

} // verus!
