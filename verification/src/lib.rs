//! DNS record reconciliation for ACME (DNS-01) validation and dynamic-DNS
//! updates against third-party DNS providers.
//!
//! The crate models DNS records and the capability contract every provider
//! adapter satisfies (`DomainController`), and builds on it the ACME challenge
//! workflow, the A-record reconciliation engine that enforces a
//! single-canonical-record invariant, and the dynamic-IP discovery logic.

pub mod certbot_run_options;
pub mod commands;
pub mod config;
pub mod discovery;
pub mod domain_control;
pub mod dyndns;
pub mod dyndns_run_options;
pub mod epik;
pub mod helpers;
pub mod ipv4;
pub mod logic;
pub mod memory;
pub mod run_options;
pub mod seqs;
pub mod strings;
pub mod test_domain_controllers_run_options;
pub mod tester;
