//! Validated options for the single-command run mode: either a certbot
//! DNS-01 operation on one domain, or a test run over every configured
//! domain.

use vstd::prelude::*;

use crate::strings::ascii_lower;
use crate::strings::eq_ignore_ascii_case;

verus! {

/// The operation a certbot run performs.
#[derive(Debug, Clone, PartialEq, Eq, Structural)]
pub enum Operation {
    SetRecord,
    Cleanup,
}

/// Case-insensitive parsing of an operation token.
pub open spec fn operation_of_text(s: Seq<char>) -> Option<Operation> {
    if ascii_lower(s) == seq!['s', 'e', 't', '_', 'r', 'e', 'c', 'o', 'r', 'd'] {
        Some(Operation::SetRecord)
    } else if ascii_lower(s) == seq!['c', 'l', 'e', 'a', 'n', 'u', 'p'] {
        Some(Operation::Cleanup)
    } else {
        None
    }
}

impl Operation {
    /// Case-insensitive parsing of an operation token.
    pub fn from_str(s: &str) -> (r: Result<Operation, String>)
        ensures
            r matches Ok(op) ==> operation_of_text(s@) == Some(op),
            r is Err ==> operation_of_text(s@) is None,
    {
        proof {
            reveal_strlit("set_record");
            reveal_strlit("cleanup");
            assert("set_record"@ =~= seq!['s', 'e', 't', '_', 'r', 'e', 'c', 'o', 'r', 'd']);
            assert("cleanup"@ =~= seq!['c', 'l', 'e', 'a', 'n', 'u', 'p']);
            assert(ascii_lower("set_record"@) =~= seq![
                's',
                'e',
                't',
                '_',
                'r',
                'e',
                'c',
                'o',
                'r',
                'd',
            ]);
            assert(ascii_lower("cleanup"@) =~= seq!['c', 'l', 'e', 'a', 'n', 'u', 'p']);
        }
        if eq_ignore_ascii_case(s, "set_record") {
            Ok(Operation::SetRecord)
        } else if eq_ignore_ascii_case(s, "cleanup") {
            Ok(Operation::Cleanup)
        } else {
            let mut e = String::from_str("Unknown operation: ");
            e.append(s);
            Err(e)
        }
    }
}

/// The raw command-line options of a single-command run, before validation.
#[derive(Debug, Clone)]
pub struct RunOptions {
    /// Test setting, reading and erasing a DNS record for every domain in
    /// the configuration, with generated values; takes no further options.
    pub test_run: bool,
    /// The domain whose DNS records will be updated; its configuration must
    /// be present in the config file.
    pub domain_name: Option<String>,
    /// What to do: set the TXT validation record, or clean it up.
    pub operation: Option<Operation>,
    /// The validation string to store in the TXT record.
    pub validation_string: Option<String>,
    /// The path of the configuration file.
    pub config_file_path: String,
}

impl Default for RunOptions {
    fn default() -> (r: RunOptions)
        ensures
            !r.test_run,
            r.domain_name is None,
            r.operation is None,
            r.validation_string is None,
            r.config_file_path@ == Seq::<char>::empty(),
    {
        RunOptions {
            test_run: false,
            domain_name: None,
            operation: None,
            validation_string: None,
            config_file_path: String::new(),
        }
    }
}

/// Whether the options are consistent: a test run takes no other options,
/// and a regular run needs all of them.
pub open spec fn run_options_consistent(o: RunOptions) -> bool {
    if o.test_run {
        o.domain_name is None && o.operation is None && o.validation_string is None
    } else {
        o.domain_name is Some && o.operation is Some && o.validation_string is Some
    }
}

/// The message reported for the first inconsistency found.
pub open spec fn run_options_error_text(o: RunOptions) -> Seq<char> {
    if o.test_run {
        if o.domain_name is Some {
            "Domain name should not be provided in test mode. All domains will be tested."@
        } else if o.operation is Some {
            "Operation should not be provided in test mode. All operations will be tested."@
        } else {
            "Validation string should not be provided in test mode. Random strings will be used."@
        }
    } else {
        if o.domain_name is None {
            "Domain name not provided"@
        } else if o.operation is None {
            "Operation not provided"@
        } else {
            "Validation string not provided"@
        }
    }
}

impl RunOptions {
    /// Check the options for consistency, reporting the first problem found.
    pub fn check(&self) -> (r: Result<(), String>)
        ensures
            (r is Ok) == run_options_consistent(*self),
            r matches Err(e) ==> e@ == run_options_error_text(*self),
    {
        if self.test_run {
            if self.domain_name.is_some() {
                return Err(
                    String::from_str(
                        "Domain name should not be provided in test mode. All domains will be tested.",
                    ),
                );
            }
            if self.operation.is_some() {
                return Err(
                    String::from_str(
                        "Operation should not be provided in test mode. All operations will be tested.",
                    ),
                );
            }
            if self.validation_string.is_some() {
                return Err(
                    String::from_str(
                        "Validation string should not be provided in test mode. Random strings will be used.",
                    ),
                );
            }
        } else {
            if self.domain_name.is_none() {
                return Err(String::from_str("Domain name not provided"));
            }
            if self.operation.is_none() {
                return Err(String::from_str("Operation not provided"));
            }
            if self.validation_string.is_none() {
                return Err(String::from_str("Validation string not provided"));
            }
        }
        Ok(())
    }

    /// Strip the options down to the values a regular run needs.
    pub fn into_simplified(self) -> (r: SimplifiedRunOptions)
        requires
            self.domain_name is Some,
            self.operation is Some,
            self.validation_string is Some,
        ensures
            r.domain_name == self.domain_name.unwrap(),
            r.operation == self.operation.unwrap(),
            r.validation_string == self.validation_string.unwrap(),
    {
        SimplifiedRunOptions {
            domain_name: self.domain_name.unwrap(),
            operation: self.operation.unwrap(),
            validation_string: self.validation_string.unwrap(),
        }
    }
}

/// The validated options a regular run works with.
pub struct SimplifiedRunOptions {
    pub domain_name: String,
    pub operation: Operation,
    pub validation_string: String,
}

} // verus!
