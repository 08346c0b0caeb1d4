use dns_control::certbot_run_options::CertbotRunOptions;
use dns_control::certbot_run_options::Operation as CertbotOperation;
use dns_control::dyndns_run_options::DynDnsRunOptions;
use dns_control::run_options::{Operation, RunOptions};

#[test]
fn operation_tokens_parse_case_insensitively() {
    assert_eq!(Operation::from_str("set_record").unwrap(), Operation::SetRecord);
    assert_eq!(Operation::from_str("SET_RECORD").unwrap(), Operation::SetRecord);
    assert_eq!(Operation::from_str("cleanup").unwrap(), Operation::Cleanup);
    assert_eq!(Operation::from_str("CleanUp").unwrap(), Operation::Cleanup);
    let err = Operation::from_str("destroy").unwrap_err();
    assert_eq!(err, "Unknown operation: destroy");
}

#[test]
fn certbot_operation_uses_a_hyphen() {
    assert_eq!(
        CertbotOperation::from_str("set-record").unwrap(),
        CertbotOperation::SetRecord
    );
    assert!(CertbotOperation::from_str("set_record").is_err());
    assert_eq!(CertbotOperation::from_str("cleanup").unwrap(), CertbotOperation::Cleanup);
}

#[test]
fn regular_run_requires_all_options() {
    let mut options = RunOptions::default();
    assert_eq!(options.check().unwrap_err(), "Domain name not provided");
    options.domain_name = Some(String::from("example.com"));
    assert_eq!(options.check().unwrap_err(), "Operation not provided");
    options.operation = Some(Operation::SetRecord);
    assert_eq!(options.check().unwrap_err(), "Validation string not provided");
    options.validation_string = Some(String::from("abc"));
    assert!(options.check().is_ok());
    let simplified = options.into_simplified();
    assert_eq!(simplified.domain_name, "example.com");
    assert_eq!(simplified.operation, Operation::SetRecord);
    assert_eq!(simplified.validation_string, "abc");
}

#[test]
fn test_run_takes_no_other_options() {
    let mut options = RunOptions::default();
    options.test_run = true;
    assert!(options.check().is_ok());
    options.domain_name = Some(String::from("example.com"));
    assert_eq!(
        options.check().unwrap_err(),
        "Domain name should not be provided in test mode. All domains will be tested."
    );
}

#[test]
fn certbot_options_report_the_first_missing_one() {
    let mut options = CertbotRunOptions::default();
    assert_eq!(options.check().unwrap_err(), "Domain name not provided");
    options.domain_name = Some(String::from("example.com"));
    options.operation = Some(CertbotOperation::Cleanup);
    options.validation_string = Some(String::from("v"));
    assert!(options.check().is_ok());
    let simplified = options.into_simplified();
    assert_eq!(simplified.operation, CertbotOperation::Cleanup);
}

#[test]
fn dyndns_options_need_domain_and_subdomain() {
    let mut options = DynDnsRunOptions::default();
    assert_eq!(options.check().unwrap_err(), "Account domain name not provided");
    options.account_domain_name = Some(String::from("example.com"));
    assert_eq!(
        options.check().unwrap_err(),
        "The subdomain, for which the DNS record will be updated, not provided"
    );
    options.subdomain = Some(String::from("dyn"));
    assert!(options.check().is_ok());
    let simplified = options.into_simplified();
    assert_eq!(simplified.account_domain_name, "example.com");
    assert_eq!(simplified.subdomain, "dyn");
}
