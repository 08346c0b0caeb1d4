//! Options for the tester subcommand, which exercises every configured
//! domain controller with generated records.

use vstd::prelude::*;

verus! {

/// The command-line options of a domain-controller test run.
#[derive(Debug, Clone)]
pub struct TestDomainControllersRunOptions {
    /// The path of the configuration file.
    pub config_file_path: String,
    /// A proxy address through which the provider API is reached.
    pub proxy: Option<String>,
}

impl Default for TestDomainControllersRunOptions {
    fn default() -> (r: TestDomainControllersRunOptions)
        ensures
            r.config_file_path@ == Seq::<char>::empty(),
            r.proxy is None,
    {
        TestDomainControllersRunOptions { config_file_path: String::new(), proxy: None }
    }
}

} // verus!
