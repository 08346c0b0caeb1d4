//! Validated options for the certbot subcommand, which performs the DNS-01
//! validation flow for one domain.

use vstd::prelude::*;

use crate::strings::ascii_lower;
use crate::strings::eq_ignore_ascii_case;

verus! {

/// The operation a certbot run performs.
#[derive(Debug, Clone, PartialEq, Eq, Structural)]
pub enum Operation {
    SetRecord,
    Cleanup,
}

/// Case-insensitive parsing of an operation token.
pub open spec fn operation_of_text(s: Seq<char>) -> Option<Operation> {
    if ascii_lower(s) == seq!['s', 'e', 't', '-', 'r', 'e', 'c', 'o', 'r', 'd'] {
        Some(Operation::SetRecord)
    } else if ascii_lower(s) == seq!['c', 'l', 'e', 'a', 'n', 'u', 'p'] {
        Some(Operation::Cleanup)
    } else {
        None
    }
}

impl Operation {
    /// Case-insensitive parsing of an operation token.
    pub fn from_str(s: &str) -> (r: Result<Operation, String>)
        ensures
            r matches Ok(op) ==> operation_of_text(s@) == Some(op),
            r is Err ==> operation_of_text(s@) is None,
    {
        proof {
            reveal_strlit("set-record");
            reveal_strlit("cleanup");
            assert("set-record"@ =~= seq!['s', 'e', 't', '-', 'r', 'e', 'c', 'o', 'r', 'd']);
            assert("cleanup"@ =~= seq!['c', 'l', 'e', 'a', 'n', 'u', 'p']);
            assert(ascii_lower("set-record"@) =~= seq![
                's',
                'e',
                't',
                '-',
                'r',
                'e',
                'c',
                'o',
                'r',
                'd',
            ]);
            assert(ascii_lower("cleanup"@) =~= seq!['c', 'l', 'e', 'a', 'n', 'u', 'p']);
        }
        if eq_ignore_ascii_case(s, "set-record") {
            Ok(Operation::SetRecord)
        } else if eq_ignore_ascii_case(s, "cleanup") {
            Ok(Operation::Cleanup)
        } else {
            let mut e = String::from_str("Unknown operation: ");
            e.append(s);
            Err(e)
        }
    }
}

/// The raw command-line options of a certbot run, before validation.
#[derive(Debug, Clone)]
pub struct CertbotRunOptions {
    /// The domain whose DNS records will be updated; its configuration must
    /// be present in the config file.
    pub domain_name: Option<String>,
    /// What to do: set the TXT validation record, or clean it up.
    pub operation: Option<Operation>,
    /// The validation string to store in the TXT record.
    pub validation_string: Option<String>,
    /// The path of the configuration file.
    pub config_file_path: String,
    /// A proxy address through which the provider API is reached.
    pub proxy: Option<String>,
}

impl Default for CertbotRunOptions {
    fn default() -> (r: CertbotRunOptions)
        ensures
            r.domain_name is None,
            r.operation is None,
            r.validation_string is None,
            r.config_file_path@ == Seq::<char>::empty(),
            r.proxy is None,
    {
        CertbotRunOptions {
            domain_name: None,
            operation: None,
            validation_string: None,
            config_file_path: String::new(),
            proxy: None,
        }
    }
}

/// Whether the options carry everything a certbot run needs.
pub open spec fn certbot_options_consistent(o: CertbotRunOptions) -> bool {
    o.domain_name is Some && o.operation is Some && o.validation_string is Some
}

/// The message reported for the first missing option.
pub open spec fn certbot_options_error_text(o: CertbotRunOptions) -> Seq<char> {
    if o.domain_name is None {
        "Domain name not provided"@
    } else if o.operation is None {
        "Operation not provided"@
    } else {
        "Validation string not provided"@
    }
}

impl CertbotRunOptions {
    /// Check the options for completeness, reporting the first problem found.
    pub fn check(&self) -> (r: Result<(), String>)
        ensures
            (r is Ok) == certbot_options_consistent(*self),
            r matches Err(e) ==> e@ == certbot_options_error_text(*self),
    {
        if self.domain_name.is_none() {
            return Err(String::from_str("Domain name not provided"));
        }
        if self.operation.is_none() {
            return Err(String::from_str("Operation not provided"));
        }
        if self.validation_string.is_none() {
            return Err(String::from_str("Validation string not provided"));
        }
        Ok(())
    }

    /// Strip the options down to the values the run needs.
    pub fn into_simplified(self) -> (r: SimplifiedCertbotRunOptions)
        requires
            self.domain_name is Some,
            self.operation is Some,
            self.validation_string is Some,
        ensures
            r.domain_name == self.domain_name.unwrap(),
            r.operation == self.operation.unwrap(),
            r.validation_string == self.validation_string.unwrap(),
    {
        SimplifiedCertbotRunOptions {
            domain_name: self.domain_name.unwrap(),
            operation: self.operation.unwrap(),
            validation_string: self.validation_string.unwrap(),
        }
    }
}

/// The validated options a certbot run works with.
pub struct SimplifiedCertbotRunOptions {
    pub domain_name: String,
    pub operation: Operation,
    pub validation_string: String,
}

} // verus!
