//! An in-memory `DomainController`: the reference implementation of the
//! capability contract, used to exercise the workflows without a provider.
//!
//! It can be configured to fail removals beyond a limit within a single call,
//! which exercises the partial-failure accounting that real adapters exhibit
//! when one of several deletions fails.

use vstd::prelude::*;

use crate::domain_control::{
    lemma_partial_removal_at, removal_match, ControllerError, DnsRecord, DnsRecordType,
    DomainController, RecordModel, RemoveFailure,
};
use crate::helpers::{compare_dns_txt_value, opt_view, str_eq};
use crate::seqs::lemma_filter_push;

verus! {

/// A provider that stores its records locally.
pub struct InMemoryController {
    records: Vec<DnsRecord>,
    remove_limit: Option<usize>,
}

impl InMemoryController {
    /// An empty controller whose removals always succeed.
    pub fn new() -> (c: InMemoryController)
        ensures
            c.records() == Seq::<RecordModel>::empty(),
    {
        InMemoryController { records: Vec::new(), remove_limit: None }
    }

    /// An empty controller whose removals fail once `limit` records have been
    /// deleted within a single `remove_dns_record` call.
    pub fn with_remove_limit(limit: usize) -> (c: InMemoryController)
        ensures
            c.records() == Seq::<RecordModel>::empty(),
    {
        InMemoryController { records: Vec::new(), remove_limit: Some(limit) }
    }
}

impl DomainController for InMemoryController {
    closed spec fn records(&self) -> Seq<RecordModel> {
        self.records@.map_values(|r: DnsRecord| r@)
    }

    fn add_dns_record(&mut self, name: &str, record_type: DnsRecordType, value: &str) -> (r: Result<
        (),
        ControllerError,
    >) {
        let record = DnsRecord {
            name: name.to_owned(),
            record_type,
            value: value.to_owned(),
        };
        self.records.push(record);
        proof {
            assert(self.records@.map_values(|r: DnsRecord| r@) =~= old(
                self,
            ).records@.map_values(|r: DnsRecord| r@).push(
                RecordModel { name: name@, record_type, value: value@ },
            ));
        }
        Ok(())
    }

    fn remove_dns_record(
        &mut self,
        name: &str,
        record_type: DnsRecordType,
        value: Option<&str>,
    ) -> (r: Result<usize, RemoveFailure>) {
        let ghost orig = self.records@.map_values(|r: DnsRecord| r@);
        let ghost mpred = |r: RecordModel| removal_match(r, name@, record_type, opt_view(value));
        let ghost npred = |r: RecordModel| !removal_match(r, name@, record_type, opt_view(value));
        let mut kept: Vec<DnsRecord> = Vec::new();
        let mut removed: usize = 0;
        let mut i: usize = 0;
        proof {
            assert(orig.take(0) =~= Seq::<RecordModel>::empty());
            reveal(Seq::filter);
        }
        while i < self.records.len()
            invariant
                i <= self.records.len(),
                self.records@.map_values(|r: DnsRecord| r@) == orig,
                self.remove_limit == old(self).remove_limit,
                orig == old(self).records@.map_values(|r: DnsRecord| r@),
                kept@.map_values(|r: DnsRecord| r@) == orig.take(i as int).filter(npred),
                removed == orig.take(i as int).filter(mpred).len(),
                mpred == (|r: RecordModel| removal_match(r, name@, record_type, opt_view(value))),
                npred == (|r: RecordModel| !removal_match(r, name@, record_type, opt_view(value))),
                removed <= i,
            decreases self.records.len() - i,
        {
            let rec = &self.records[i];
            let is_match = str_eq(rec.name.as_str(), name) && rec.record_type == record_type
                && compare_dns_txt_value(rec.value.as_str(), value);
            proof {
                assert(orig[i as int] == self.records@[i as int]@);
                assert(is_match == mpred(orig[i as int]));
                assert(orig.take(i + 1).drop_last() =~= orig.take(i as int));
                assert(orig.take(i + 1).last() == orig[i as int]);
                lemma_filter_push(orig.take(i as int), mpred, orig[i as int]);
                lemma_filter_push(orig.take(i as int), npred, orig[i as int]);
                assert(orig.take(i + 1) =~= orig.take(i as int).push(orig[i as int]));
            }
            if is_match {
                let may_remove = match self.remove_limit {
                    None => true,
                    Some(l) => removed < l,
                };
                if may_remove {
                    removed = removed + 1;
                } else {
                    // This matching record cannot be deleted: report the work
                    // already done and leave the rest of the inventory as it
                    // stands.
                    proof {
                        lemma_partial_removal_at(
                            orig,
                            name@,
                            record_type,
                            opt_view(value),
                            i as int,
                        );
                    }
                    let mut j: usize = i;
                    while j < self.records.len()
                        invariant
                            i <= j <= self.records.len(),
                            self.records@.map_values(|r: DnsRecord| r@) == orig,
                            kept@.map_values(|r: DnsRecord| r@) == orig.take(i as int).filter(
                                npred,
                            ) + orig.subrange(i as int, j as int),
                            npred == (|r: RecordModel| !removal_match(
                                r,
                                name@,
                                record_type,
                                opt_view(value),
                            )),
                        decreases self.records.len() - j,
                    {
                        let ghost km = kept@.map_values(|r: DnsRecord| r@);
                        let copy = self.records[j].duplicate();
                        proof {
                            assert(copy@ == orig[j as int]);
                        }
                        kept.push(copy);
                        proof {
                            assert(kept@.map_values(|r: DnsRecord| r@) =~= km.push(
                                orig[j as int],
                            ));
                            assert(orig.subrange(i as int, j + 1) =~= orig.subrange(
                                i as int,
                                j as int,
                            ).push(orig[j as int]));
                            assert(km.push(orig[j as int]) =~= orig.take(i as int).filter(npred)
                                + orig.subrange(i as int, j + 1));
                        }
                        j = j + 1;
                    }
                    proof {
                        assert(orig.subrange(i as int, orig.len() as int) =~= orig.skip(i as int));
                    }
                    self.records = kept;
                    return Err(
                        RemoveFailure {
                            removed,
                            error: ControllerError {
                                message: String::from_str("record removal refused"),
                            },
                        },
                    );
                }
            } else {
                let copy = rec.duplicate();
                kept.push(copy);
                proof {
                    assert(kept@.map_values(|r: DnsRecord| r@) =~= orig.take(i as int).filter(
                        npred,
                    ).push(orig[i as int]));
                }
            }
            i = i + 1;
        }
        proof {
            assert(orig.take(orig.len() as int) =~= orig);
        }
        self.records = kept;
        Ok(removed)
    }

    fn list_dns_records(&self) -> (r: Result<Vec<DnsRecord>, ControllerError>) {
        let mut out: Vec<DnsRecord> = Vec::new();
        let mut i: usize = 0;
        while i < self.records.len()
            invariant
                i <= self.records.len(),
                out@.map_values(|r: DnsRecord| r@) == self.records@.map_values(
                    |r: DnsRecord| r@,
                ).take(i as int),
            decreases self.records.len() - i,
        {
            let ghost om = out@.map_values(|r: DnsRecord| r@);
            let copy = self.records[i].duplicate();
            proof {
                assert(copy@ == self.records@.map_values(|r: DnsRecord| r@)[i as int]);
            }
            out.push(copy);
            proof {
                assert(out@.map_values(|r: DnsRecord| r@) =~= om.push(
                    self.records@.map_values(|r: DnsRecord| r@)[i as int],
                ));
                assert(out@.map_values(|r: DnsRecord| r@) =~= self.records@.map_values(
                    |r: DnsRecord| r@,
                ).take(i + 1));
            }
            i = i + 1;
        }
        proof {
            assert(self.records@.map_values(|r: DnsRecord| r@).take(self.records@.len() as int)
                =~= self.records@.map_values(|r: DnsRecord| r@));
        }
        Ok(out)
    }
}

} // verus!
