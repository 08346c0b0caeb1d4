use dns_control::domain_control::{DnsRecord, DnsRecordType};
use dns_control::epik::EpikDnsEntry;
use dns_control::helpers::compare_dns_txt_value;

#[test]
fn record_type_tokens_round_trip() {
    let all = [
        DnsRecordType::A,
        DnsRecordType::AAAA,
        DnsRecordType::CAA,
        DnsRecordType::CNAME,
        DnsRecordType::MX,
        DnsRecordType::NS,
        DnsRecordType::PTR,
        DnsRecordType::SOA,
        DnsRecordType::SRV,
        DnsRecordType::TXT,
    ];
    for t in all {
        let token = t.to_text();
        let parsed = DnsRecordType::from_str(token.as_str()).unwrap();
        assert_eq!(parsed, t);
        let lower = token.to_lowercase();
        let parsed_lower = DnsRecordType::from_str(lower.as_str()).unwrap();
        assert_eq!(parsed_lower, t);
    }
}

#[test]
fn record_type_tokens_are_canonical() {
    assert_eq!(DnsRecordType::A.to_text(), "A");
    assert_eq!(DnsRecordType::AAAA.to_text(), "AAAA");
    assert_eq!(DnsRecordType::CAA.to_text(), "CAA");
    assert_eq!(DnsRecordType::CNAME.to_text(), "CNAME");
    assert_eq!(DnsRecordType::MX.to_text(), "MX");
    assert_eq!(DnsRecordType::NS.to_text(), "NS");
    assert_eq!(DnsRecordType::PTR.to_text(), "PTR");
    assert_eq!(DnsRecordType::SOA.to_text(), "SOA");
    assert_eq!(DnsRecordType::SRV.to_text(), "SRV");
    assert_eq!(DnsRecordType::TXT.to_text(), "TXT");
}

#[test]
fn unknown_record_type_is_rejected() {
    let err = DnsRecordType::from_str("frob").unwrap_err();
    assert_eq!(err, "Unknown DNS record type: frob");
}

#[test]
fn txt_value_comparison_is_quote_insensitive() {
    assert!(compare_dns_txt_value("value", Some("value")));
    assert!(compare_dns_txt_value("\"value\"", Some("value")));
    assert!(compare_dns_txt_value("anything at all", None));
    assert!(compare_dns_txt_value("", None));
    assert!(!compare_dns_txt_value("other", Some("value")));
    assert!(!compare_dns_txt_value("\"other\"", Some("value")));
    assert!(!compare_dns_txt_value("value", Some("\"value\"")));
}

#[test]
fn entry_converts_to_record() {
    let entry = EpikDnsEntry {
        id: String::from("abc-xyz"),
        name: String::from("www"),
        record_type: DnsRecordType::A,
        data: String::from("1.2.3.4"),
        aux: 0,
        ttl: 300,
    };
    let record = DnsRecord::from_entry(entry);
    assert_eq!(record.name, "www");
    assert_eq!(record.record_type, DnsRecordType::A);
    assert_eq!(record.value, "1.2.3.4");
}
