use dns_control::domain_control::{DnsRecordType, DomainController};
use dns_control::dyndns::{reconcile_a_record, set_ipv4_record, ReconcileAction};
use dns_control::helpers::compare_dns_txt_value;
use dns_control::ipv4::Ipv4Address;
use dns_control::memory::InMemoryController;

fn a_records_for<'a>(
    controller: &InMemoryController,
    subdomain: &str,
) -> Vec<(String, String)> {
    controller
        .list_dns_records()
        .unwrap()
        .into_iter()
        .filter(|r| r.name == subdomain && r.record_type == DnsRecordType::A)
        .map(|r| (r.name, r.value))
        .collect()
}

#[test]
fn reconcile_adds_when_no_record_exists() {
    let mut c = InMemoryController::new();
    c.add_dns_record("other", DnsRecordType::A, "9.9.9.9").unwrap();
    let outcome = reconcile_a_record(&mut c, "dyn", "2.2.2.2").unwrap();
    assert_eq!(outcome.action, ReconcileAction::Added);
    assert_eq!(outcome.removed_redundant, 0);
    let records = a_records_for(&c, "dyn");
    assert_eq!(records.len(), 1);
    assert_eq!(records[0].1, "2.2.2.2");
    // The unrelated record is untouched.
    let others = a_records_for(&c, "other");
    assert_eq!(others.len(), 1);
    assert_eq!(others[0].1, "9.9.9.9");
}

#[test]
fn stale_record_is_replaced() {
    // One stale A record dyn=1.1.1.1 exists and the discovered IP is
    // 2.2.2.2: reconciliation removes the stale record, adds the new value,
    // and leaves exactly one A record.
    let mut c = InMemoryController::new();
    c.add_dns_record("dyn", DnsRecordType::A, "1.1.1.1").unwrap();
    let ip = Ipv4Address { o0: 2, o1: 2, o2: 2, o3: 2 };
    let outcome = set_ipv4_record(&mut c, "dyn", &ip).unwrap();
    assert_eq!(outcome.action, ReconcileAction::Replaced);
    assert_eq!(outcome.removed_redundant, 0);
    let records = a_records_for(&c, "dyn");
    assert_eq!(records.len(), 1);
    assert_eq!(records[0].1, "2.2.2.2");
}

#[test]
fn duplicates_collapse_to_one_record() {
    // Several A records exist for the subdomain: after reconciliation
    // exactly one remains and its value is the discovered IP.
    let mut c = InMemoryController::new();
    c.add_dns_record("dyn", DnsRecordType::A, "1.1.1.1").unwrap();
    c.add_dns_record("dyn", DnsRecordType::A, "3.3.3.3").unwrap();
    c.add_dns_record("dyn", DnsRecordType::A, "4.4.4.4").unwrap();
    c.add_dns_record("mail", DnsRecordType::MX, "mx.example.com").unwrap();
    let outcome = reconcile_a_record(&mut c, "dyn", "2.2.2.2").unwrap();
    assert_eq!(outcome.removed_redundant, 2);
    let records = a_records_for(&c, "dyn");
    assert_eq!(records.len(), 1);
    assert_eq!(records[0].1, "2.2.2.2");
    assert_eq!(c.list_dns_records().unwrap().len(), 2);
}

#[test]
fn reconciliation_is_idempotent() {
    // Running the reconciliation twice with the same discovered IP yields
    // the same state as running it once; the second run performs no call.
    let mut c = InMemoryController::new();
    c.add_dns_record("dyn", DnsRecordType::A, "1.1.1.1").unwrap();
    c.add_dns_record("dyn", DnsRecordType::A, "2.2.2.2").unwrap();
    reconcile_a_record(&mut c, "dyn", "5.6.7.8").unwrap();
    let after_first: Vec<(String, String)> = c
        .list_dns_records()
        .unwrap()
        .into_iter()
        .map(|r| (r.name, r.value))
        .collect();
    let outcome = reconcile_a_record(&mut c, "dyn", "5.6.7.8").unwrap();
    assert_eq!(outcome.action, ReconcileAction::NoOp);
    assert_eq!(outcome.removed_redundant, 0);
    let after_second: Vec<(String, String)> = c
        .list_dns_records()
        .unwrap()
        .into_iter()
        .map(|r| (r.name, r.value))
        .collect();
    assert_eq!(after_first, after_second);
}

#[test]
fn matching_record_is_a_no_op() {
    let mut c = InMemoryController::new();
    c.add_dns_record("dyn", DnsRecordType::A, "2.2.2.2").unwrap();
    let outcome = reconcile_a_record(&mut c, "dyn", "2.2.2.2").unwrap();
    assert_eq!(outcome.action, ReconcileAction::NoOp);
    let records = a_records_for(&c, "dyn");
    assert_eq!(records.len(), 1);
}

#[test]
fn partial_removal_reports_the_count_and_the_error() {
    // Removing five matching TXT records where only three deletions succeed
    // must report three removed and return an error — not five, not zero.
    let mut c = InMemoryController::with_remove_limit(3);
    for _ in 0..5 {
        c.add_dns_record("_acme-challenge", DnsRecordType::TXT, "token").unwrap();
    }
    let failure = c
        .remove_dns_record("_acme-challenge", DnsRecordType::TXT, Some("token"))
        .unwrap_err();
    assert_eq!(failure.removed, 3);
    let left: Vec<_> = c
        .list_dns_records()
        .unwrap()
        .into_iter()
        .filter(|r| r.name == "_acme-challenge" && compare_dns_txt_value(&r.value, Some("token")))
        .collect();
    assert_eq!(left.len(), 2);
}

#[test]
fn removal_without_value_removes_all_records_of_the_name_and_type() {
    let mut c = InMemoryController::new();
    c.add_dns_record("sub", DnsRecordType::TXT, "a").unwrap();
    c.add_dns_record("sub", DnsRecordType::TXT, "b").unwrap();
    c.add_dns_record("sub", DnsRecordType::A, "1.1.1.1").unwrap();
    let n = c.remove_dns_record("sub", DnsRecordType::TXT, None).unwrap();
    assert_eq!(n, 2);
    assert_eq!(c.list_dns_records().unwrap().len(), 1);
}

#[test]
fn quoted_values_match_on_removal() {
    let mut c = InMemoryController::new();
    c.add_dns_record("sub", DnsRecordType::TXT, "\"tok\"").unwrap();
    let n = c.remove_dns_record("sub", DnsRecordType::TXT, Some("tok")).unwrap();
    assert_eq!(n, 1);
    assert_eq!(c.list_dns_records().unwrap().len(), 0);
}
