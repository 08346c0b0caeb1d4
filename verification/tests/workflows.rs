use dns_control::config::{Config, ControllerEntry, DomainControllers};
use dns_control::domain_control::{DnsRecordType, DomainController};
use dns_control::dyndns::run_regular as dyndns_run_regular;
use dns_control::epik::Epik;
use dns_control::dyndns_run_options::SimplifiedDynDnsRunOptions;
use dns_control::helpers::compare_dns_txt_value;
use dns_control::ipv4::Ipv4Address;
use dns_control::logic::{cleanup, run_regular, set_record, RunError};
use dns_control::memory::InMemoryController;
use dns_control::run_options::{Operation, SimplifiedRunOptions};
use dns_control::tester::run_test;

fn registry_with(domain: &str) -> DomainControllers<InMemoryController> {
    let entries = vec![ControllerEntry {
        domain_name: String::from(domain),
        controller: InMemoryController::new(),
    }];
    DomainControllers::from_entries(entries).unwrap()
}

#[test]
fn set_record_creates_exactly_one_challenge_record() {
    // Starting with no records, setting the validation string leaves exactly
    // one TXT record `_acme-challenge=abc123`, quote-insensitively.
    let mut registry = registry_with("example.com");
    let args = SimplifiedRunOptions {
        domain_name: String::from("example.com"),
        operation: Operation::SetRecord,
        validation_string: String::from("abc123"),
    };
    run_regular(&mut registry, args).unwrap();
    let entry = registry.take_at(0);
    let records = entry.controller.list_dns_records().unwrap();
    let challenges: Vec<_> = records
        .iter()
        .filter(|r| {
            r.name == "_acme-challenge" && r.record_type == DnsRecordType::TXT
                && compare_dns_txt_value(&r.value, Some("abc123"))
        })
        .collect();
    assert_eq!(challenges.len(), 1);
    assert_eq!(records.len(), 1);
}

#[test]
fn cleanup_removes_the_challenge_record() {
    let mut c = InMemoryController::new();
    set_record(&mut c, "abc123").unwrap();
    set_record(&mut c, "other").unwrap();
    cleanup(&mut c, "abc123").unwrap();
    let records = c.list_dns_records().unwrap();
    assert_eq!(records.len(), 1);
    assert_eq!(records[0].value, "other");
}

#[test]
fn missing_domain_is_a_fatal_configuration_error() {
    let mut registry = registry_with("example.com");
    let args = SimplifiedRunOptions {
        domain_name: String::from("nope.example"),
        operation: Operation::SetRecord,
        validation_string: String::from("abc123"),
    };
    let err = run_regular(&mut registry, args).unwrap_err();
    assert!(matches!(err, RunError::DomainControllerNotFound));
}

#[test]
fn dyndns_run_updates_the_subdomain() {
    let mut registry = registry_with("example.com");
    let args = SimplifiedDynDnsRunOptions {
        account_domain_name: String::from("example.com"),
        subdomain: String::from("dyn"),
    };
    let ip = Ipv4Address { o0: 2, o1: 2, o2: 2, o3: 2 };
    dyndns_run_regular(&mut registry, args, &ip).unwrap();
    let entry = registry.take_at(0);
    let records = entry.controller.list_dns_records().unwrap();
    assert_eq!(records.len(), 1);
    assert_eq!(records[0].name, "dyn");
    assert_eq!(records[0].value, "2.2.2.2");
}

#[test]
fn duplicate_domains_are_rejected() {
    let config = Config {
        epik_configs: vec![
            Epik::new(String::from("example.com"), String::from("sig-one")),
            Epik::new(String::from("example.com"), String::from("sig-two")),
        ],
    };
    assert!(config.into_domain_controllers().is_err());
}

#[test]
fn distinct_domains_build_a_registry() {
    let config = Config {
        epik_configs: vec![
            Epik::new(String::from("one.example"), String::from("sig-one")),
            Epik::new(String::from("two.example"), String::from("sig-two")),
        ],
    };
    let registry = config.into_domain_controllers().unwrap();
    assert_eq!(registry.len(), 2);
    assert!(registry.find("two.example") == Some(1));
    assert!(registry.find("missing.example").is_none());
}

#[test]
fn controller_tests_pass_and_preserve_state() {
    let mut registry = registry_with("example.com");
    run_test(&mut registry).unwrap();
    let entry = registry.take_at(0);
    assert_eq!(entry.controller.list_dns_records().unwrap().len(), 0);
}

#[test]
fn controller_tests_leave_existing_records_alone() {
    let mut c = InMemoryController::new();
    c.add_dns_record("www", DnsRecordType::A, "1.2.3.4").unwrap();
    let entries = vec![ControllerEntry {
        domain_name: String::from("example.com"),
        controller: c,
    }];
    let mut registry = DomainControllers::from_entries(entries).unwrap();
    run_test(&mut registry).unwrap();
    let entry = registry.take_at(0);
    let records = entry.controller.list_dns_records().unwrap();
    assert_eq!(records.len(), 1);
    assert_eq!(records[0].name, "www");
}
