//! The ACME challenge workflow: set or clean up the DNS-01 validation TXT
//! record for the `_acme-challenge` subdomain of a configured domain.

use vstd::prelude::*;

use crate::config::{first_index_of, lemma_first_index_of, DomainControllers};
use crate::domain_control::{
    matching_count, partial_removal, surviving_records, ControllerError, DnsRecordType,
    DomainController, RecordModel, RemoveFailure,
};
use crate::run_options::{Operation, SimplifiedRunOptions};

verus! {

/// The subdomain the DNS-01 validation flow uses.
pub fn acme_challenge_subdomain() -> (r: &'static str)
    ensures
        r@ == "_acme-challenge"@,
{
    "_acme-challenge"
}

/// The TXT record the validation flow stores.
pub open spec fn acme_txt_record(value: Seq<char>) -> RecordModel {
    RecordModel { name: "_acme-challenge"@, record_type: DnsRecordType::TXT, value }
}

/// Store the validation string as the `_acme-challenge` TXT record.
pub fn set_record<T: DomainController>(controller: &mut T, value: &str) -> (r: Result<
    (),
    ControllerError,
>)
    ensures
        r is Ok ==> final(controller).records() == old(controller).records().push(
            acme_txt_record(value@),
        ),
        r is Err ==> final(controller).records() == old(controller).records(),
{
    controller.add_dns_record(acme_challenge_subdomain(), DnsRecordType::TXT, value)
}

/// Remove the `_acme-challenge` TXT records whose value quote-insensitively
/// matches the validation string.
pub fn cleanup<T: DomainController>(controller: &mut T, value: &str) -> (r: Result<
    (),
    RemoveFailure,
>)
    ensures
        r is Ok ==> final(controller).records() == surviving_records(
            old(controller).records(),
            "_acme-challenge"@,
            DnsRecordType::TXT,
            Some(value@),
        ),
        r matches Err(f) ==> f.removed <= matching_count(
            old(controller).records(),
            "_acme-challenge"@,
            DnsRecordType::TXT,
            Some(value@),
        ) && final(controller).records() == partial_removal(
            old(controller).records(),
            "_acme-challenge"@,
            DnsRecordType::TXT,
            Some(value@),
            f.removed as nat,
        ),
{
    match controller.remove_dns_record(
        acme_challenge_subdomain(),
        DnsRecordType::TXT,
        Some(value),
    ) {
        Ok(_) => Ok(()),
        Err(f) => Err(f),
    }
}

/// Why a regular run stopped.
#[derive(Debug, Clone)]
pub enum RunError {
    /// The domain has no controller in the registry: a fatal configuration
    /// error, reported before any provider call.
    DomainControllerNotFound,
    /// The provider rejected the record creation.
    Add(ControllerError),
    /// The provider rejected, or only partly performed, the removal.
    Remove(RemoveFailure),
}

/// Run one certbot operation against the controller registered for the
/// domain: set the validation record, or clean it up.
pub fn run_regular<T: DomainController>(
    registry: &mut DomainControllers<T>,
    args: SimplifiedRunOptions,
) -> (r: Result<(), RunError>)
    requires
        old(registry).wf(),
    ensures
        final(registry).wf(),
        final(registry).names() == old(registry).names(),
        (r matches Err(RunError::DomainControllerNotFound)) == (first_index_of(
            old(registry).names(),
            args.domain_name@,
        ) < 0),
        forall|j: int|
            0 <= j < old(registry).names().len() && j != first_index_of(
                old(registry).names(),
                args.domain_name@,
            ) ==> final(registry).controller_at(j) == old(registry).controller_at(j),
        ({
            let i = first_index_of(old(registry).names(), args.domain_name@);
            let before = old(registry).controller_at(i).records();
            let after = final(registry).controller_at(i).records();
            i >= 0 ==> match args.operation {
                Operation::SetRecord => {
                    &&& r is Ok ==> after == before.push(acme_txt_record(args.validation_string@))
                    &&& r matches Err(RunError::Add(_)) ==> after == before
                    &&& r is Err ==> r matches Err(RunError::Add(_))
                },
                Operation::Cleanup => {
                    &&& r is Ok ==> after == surviving_records(
                        before,
                        "_acme-challenge"@,
                        DnsRecordType::TXT,
                        Some(args.validation_string@),
                    )
                    &&& r matches Err(RunError::Remove(f)) ==> after == partial_removal(
                        before,
                        "_acme-challenge"@,
                        DnsRecordType::TXT,
                        Some(args.validation_string@),
                        f.removed as nat,
                    )
                    &&& r is Err ==> r matches Err(RunError::Remove(_))
                },
            }
        }),
{
    proof {
        lemma_first_index_of(old(registry).names(), args.domain_name@);
    }
    let i = match registry.find(args.domain_name.as_str()) {
        Some(i) => i,
        None => {
            return Err(RunError::DomainControllerNotFound);
        },
    };
    let mut entry = registry.take_at(i);
    let result = match args.operation {
        Operation::SetRecord => {
            match set_record(&mut entry.controller, args.validation_string.as_str()) {
                Ok(_) => Ok(()),
                Err(e) => Err(RunError::Add(e)),
            }
        },
        Operation::Cleanup => {
            match cleanup(&mut entry.controller, args.validation_string.as_str()) {
                Ok(_) => Ok(()),
                Err(f) => Err(RunError::Remove(f)),
            }
        },
    };
    registry.restore(i, entry);
    proof {
        assert(registry.names() =~= old(registry).names());
    }
    result
}

} // verus!
