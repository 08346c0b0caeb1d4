//! Validated options for the dyndns subcommand, which points a subdomain's A
//! record at the machine's routable IP address.

use vstd::prelude::*;

verus! {

/// The raw command-line options of a dyndns run, before validation.
#[derive(Debug, Clone)]
pub struct DynDnsRunOptions {
    /// The account domain whose provider configuration is used — not the
    /// subdomain being updated.
    pub account_domain_name: Option<String>,
    /// The subdomain whose A record is updated.
    pub subdomain: Option<String>,
    /// The path of the configuration file.
    pub config_file_path: String,
    /// A proxy address through which the provider API is reached.
    pub proxy: Option<String>,
}

impl Default for DynDnsRunOptions {
    fn default() -> (r: DynDnsRunOptions)
        ensures
            r.account_domain_name is None,
            r.subdomain is None,
            r.config_file_path@ == Seq::<char>::empty(),
            r.proxy is None,
    {
        DynDnsRunOptions {
            account_domain_name: None,
            subdomain: None,
            config_file_path: String::new(),
            proxy: None,
        }
    }
}

/// Whether the options carry everything a dyndns run needs.
pub open spec fn dyndns_options_consistent(o: DynDnsRunOptions) -> bool {
    o.account_domain_name is Some && o.subdomain is Some
}

/// The message reported for the first missing option.
pub open spec fn dyndns_options_error_text(o: DynDnsRunOptions) -> Seq<char> {
    if o.account_domain_name is None {
        "Account domain name not provided"@
    } else {
        "The subdomain, for which the DNS record will be updated, not provided"@
    }
}

impl DynDnsRunOptions {
    /// Check the options for completeness, reporting the first problem found.
    pub fn check(&self) -> (r: Result<(), String>)
        ensures
            (r is Ok) == dyndns_options_consistent(*self),
            r matches Err(e) ==> e@ == dyndns_options_error_text(*self),
    {
        if self.account_domain_name.is_none() {
            return Err(String::from_str("Account domain name not provided"));
        }
        if self.subdomain.is_none() {
            return Err(
                String::from_str(
                    "The subdomain, for which the DNS record will be updated, not provided",
                ),
            );
        }
        Ok(())
    }

    /// Strip the options down to the values the run needs.
    pub fn into_simplified(self) -> (r: SimplifiedDynDnsRunOptions)
        requires
            self.account_domain_name is Some,
            self.subdomain is Some,
        ensures
            r.account_domain_name == self.account_domain_name.unwrap(),
            r.subdomain == self.subdomain.unwrap(),
    {
        SimplifiedDynDnsRunOptions {
            account_domain_name: self.account_domain_name.unwrap(),
            subdomain: self.subdomain.unwrap(),
        }
    }
}

/// The validated options a dyndns run works with.
pub struct SimplifiedDynDnsRunOptions {
    pub account_domain_name: String,
    pub subdomain: String,
}

} // verus!
