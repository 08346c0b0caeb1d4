use dns_control::domain_control::DnsRecordType;
use dns_control::epik::{
    create_record_body, ids_to_remove, records_from_response, Epik, EpikDnsEntry,
    EpikDnsRecordsResponseData, Error,
};

fn entry(id: &str, name: &str, record_type: DnsRecordType, data: &str) -> EpikDnsEntry {
    EpikDnsEntry {
        id: String::from(id),
        name: String::from(name),
        record_type,
        data: String::from(data),
        aux: 0,
        ttl: 300,
    }
}

#[test]
fn request_urls_carry_domain_and_signature() {
    let epik = Epik::new(String::from("example.com"), String::from("SECRET-REDACTED"));
    assert_eq!(
        epik.records_url(),
        "https://usersapiv2.epik.com/v2/domains/example.com/records?SIGNATURE=SECRET-REDACTED"
    );
    assert_eq!(
        epik.delete_url("id-7"),
        "https://usersapiv2.epik.com/v2/domains/example.com/records?SIGNATURE=SECRET-REDACTED&ID=id-7"
    );
}

#[test]
fn creation_body_has_the_expected_shape() {
    let body = create_record_body("_acme-challenge", DnsRecordType::TXT, "tok-123");
    assert_eq!(
        body,
        "{ \"create_host_records_payload\": {\"HOST\":\"_acme-challenge\",\"TYPE\":\"TXT\",\"DATA\":\"tok-123\",\"AUX\":0,\"TTL\":360} }"
    );
}

#[test]
fn creation_body_escapes_json_characters() {
    let body = create_record_body("a\"b", DnsRecordType::TXT, "x\\y\nz\u{01}");
    assert_eq!(
        body,
        "{ \"create_host_records_payload\": {\"HOST\":\"a\\\"b\",\"TYPE\":\"TXT\",\"DATA\":\"x\\\\y\\nz\\u0001\",\"AUX\":0,\"TTL\":360} }"
    );
}

#[test]
fn removal_targets_filter_by_name_type_and_value() {
    let entries = vec![
        entry("id-1", "www", DnsRecordType::A, "1.2.3.4"),
        entry("id-2", "sub", DnsRecordType::TXT, "tok"),
        entry("id-3", "sub", DnsRecordType::TXT, "\"tok\""),
        entry("id-4", "sub", DnsRecordType::TXT, "other"),
        entry("id-5", "sub", DnsRecordType::A, "tok"),
    ];
    let ids = ids_to_remove(&entries, "sub", DnsRecordType::TXT, Some("tok"));
    assert_eq!(ids, vec![String::from("id-2"), String::from("id-3")]);
    let all = ids_to_remove(&entries, "sub", DnsRecordType::TXT, None);
    assert_eq!(
        all,
        vec![String::from("id-2"), String::from("id-3"), String::from("id-4")]
    );
}

#[test]
fn listing_response_converts_to_records() {
    let resp = EpikDnsRecordsResponseData {
        domain_name: String::from("example.com"),
        code: 1000,
        records: vec![
            entry("abcdefg", "www", DnsRecordType::A, "1.2.3.4"),
            entry("fffff", "mail", DnsRecordType::CAA, "the great data"),
        ],
    };
    let records = records_from_response(resp, &String::from("example.com")).unwrap();
    assert_eq!(records.len(), 2);
    assert_eq!(records[0].name, "www");
    assert_eq!(records[0].record_type, DnsRecordType::A);
    assert_eq!(records[0].value, "1.2.3.4");
    assert_eq!(records[1].name, "mail");
    assert_eq!(records[1].record_type, DnsRecordType::CAA);
}

#[test]
fn listing_response_for_the_wrong_domain_is_rejected() {
    let resp = EpikDnsRecordsResponseData {
        domain_name: String::from("other.com"),
        code: 1000,
        records: vec![],
    };
    let err = records_from_response(resp, &String::from("example.com")).unwrap_err();
    assert_eq!(err, Error::DomainNameMismatch);
}

#[test]
fn epik_exposes_its_domain_name() {
    let epik = Epik::new(String::from("example.com"), String::from("SECRET-REDACTED"));
    assert_eq!(epik.domain_name().as_str(), "example.com");
}
