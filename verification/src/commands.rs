//! The subcommand surface: which of the three run modes was selected, with
//! its options.

use vstd::prelude::*;

use crate::certbot_run_options::CertbotRunOptions;
use crate::dyndns_run_options::DynDnsRunOptions;
use crate::test_domain_controllers_run_options::TestDomainControllersRunOptions;

verus! {

/// The command-line surface: one subcommand per run mode.
#[derive(Debug, Clone)]
pub struct RunOptions {
    pub command: RunCommand,
}

/// The selected run mode.
#[derive(Debug, Clone)]
pub enum RunCommand {
    /// Run the certbot mode to do the DNS-01 validation.
    Certbot(CertbotRunOptions),
    /// Run the dyndns mode to update the DNS record of a subdomain from the
    /// routable IP address of the machine this program runs on.
    Dyndns(DynDnsRunOptions),
    /// Test every configured domain controller by setting, reading and
    /// erasing generated records.
    Test(TestDomainControllersRunOptions),
}

} // verus!
