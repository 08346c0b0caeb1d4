use dns_control::domain_control::{DnsRecordType, DomainController};
use dns_control::dyndns::{reconcile_a_record, ReconcileError};
use dns_control::logic::cleanup;
use dns_control::memory::InMemoryController;
use dns_control::tester::{test_singular_with, TesterError};

#[test]
fn failing_redundant_removal_is_fatal() {
    let mut c = InMemoryController::with_remove_limit(0);
    c.add_dns_record("dyn", DnsRecordType::A, "1.1.1.1").unwrap();
    c.add_dns_record("dyn", DnsRecordType::A, "3.3.3.3").unwrap();
    let err = reconcile_a_record(&mut c, "dyn", "2.2.2.2").unwrap_err();
    assert!(matches!(err, ReconcileError::RedundantRemoval(_)));
    // Nothing could be removed, so both records are still there.
    assert_eq!(c.list_dns_records().unwrap().len(), 2);
}

#[test]
fn failing_stale_removal_is_reported() {
    let mut c = InMemoryController::with_remove_limit(0);
    c.add_dns_record("dyn", DnsRecordType::A, "1.1.1.1").unwrap();
    let err = reconcile_a_record(&mut c, "dyn", "2.2.2.2").unwrap_err();
    assert!(matches!(err, ReconcileError::StaleRemoval(_)));
    let records = c.list_dns_records().unwrap();
    assert_eq!(records.len(), 1);
    assert_eq!(records[0].value, "1.1.1.1");
}

#[test]
fn failing_cleanup_keeps_the_count() {
    let mut c = InMemoryController::with_remove_limit(1);
    c.add_dns_record("_acme-challenge", DnsRecordType::TXT, "tok").unwrap();
    c.add_dns_record("_acme-challenge", DnsRecordType::TXT, "tok").unwrap();
    let failure = cleanup(&mut c, "tok").unwrap_err();
    assert_eq!(failure.removed, 1);
    assert_eq!(c.list_dns_records().unwrap().len(), 1);
}

#[test]
fn pre_existing_records_fail_the_singular_test() {
    let mut c = InMemoryController::new();
    c.add_dns_record("key", DnsRecordType::TXT, "value").unwrap();
    let err = test_singular_with(&mut c, "key", "value").unwrap_err();
    assert!(matches!(err, TesterError::UnexpectedRemoveCount(2)));
    // Both the pre-existing and the freshly set record are gone: the
    // removal matched them both.
    assert_eq!(c.list_dns_records().unwrap().len(), 0);
}

#[test]
fn clean_state_passes_the_singular_test() {
    let mut c = InMemoryController::new();
    c.add_dns_record("unrelated", DnsRecordType::TXT, "value").unwrap();
    test_singular_with(&mut c, "key", "value").unwrap();
    let records = c.list_dns_records().unwrap();
    assert_eq!(records.len(), 1);
    assert_eq!(records[0].name, "unrelated");
}
