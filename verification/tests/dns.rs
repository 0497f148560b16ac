use g3_resolver::dns::DnsEncryptionProtocol;

#[test]
fn parse_tls_aliases() {
    for s in ["tls", "TLS", "dns-over-tls", "dns_over_tls", "DnsOverTls", "dot", "DoT"] {
        assert_eq!(DnsEncryptionProtocol::from_str(s), Some(DnsEncryptionProtocol::Tls));
    }
}

#[test]
fn parse_https_aliases() {
    for s in ["https", "h2", "dns-over-https", "dnsoverhttps", "DoH"] {
        assert_eq!(DnsEncryptionProtocol::from_str(s), Some(DnsEncryptionProtocol::Https));
    }
}

#[test]
fn parse_quic_family_aliases() {
    for s in ["h3", "http/3", "dns-over-http/3", "doh3"] {
        assert_eq!(DnsEncryptionProtocol::from_str(s), Some(DnsEncryptionProtocol::H3));
    }
    for s in ["quic", "dns-over-quic", "dnsoverquic", "DoQ"] {
        assert_eq!(DnsEncryptionProtocol::from_str(s), Some(DnsEncryptionProtocol::Quic));
    }
}

#[test]
fn parse_unknown_is_none() {
    for s in ["", "udp", "tl", "tlss", "dns", "dns-over"] {
        assert_eq!(DnsEncryptionProtocol::from_str(s), None);
    }
}

#[test]
fn display_names() {
    assert_eq!(DnsEncryptionProtocol::Tls.as_str(), "DnsOverTls");
    assert_eq!(DnsEncryptionProtocol::Https.as_str(), "DnsOverHttps");
    assert_eq!(DnsEncryptionProtocol::H3.as_str(), "DnsOverHttp/3");
    assert_eq!(DnsEncryptionProtocol::Quic.as_str(), "DnsOverQuic");
}

#[test]
fn default_ports() {
    assert_eq!(DnsEncryptionProtocol::Tls.default_port(), 853);
    assert_eq!(DnsEncryptionProtocol::Https.default_port(), 443);
    assert_eq!(DnsEncryptionProtocol::H3.default_port(), 443);
    assert_eq!(DnsEncryptionProtocol::Quic.default_port(), 853);
}
