//! Exercising a domain controller end to end: set generated records, read
//! them back, and erase them, checking the counts at every step. A passing
//! run leaves the provider exactly as it was found.

use vstd::prelude::*;

use rand::distr::{Alphanumeric, SampleString};

use crate::config::DomainControllers;
use crate::domain_control::{
    matching_count, partial_removal, removal_match, surviving_records, ControllerError, DnsRecord,
    DnsRecordType, DomainController, RecordModel, RemoveFailure,
};
use crate::helpers::{compare_dns_txt_value, str_eq, txt_value_matches};
use crate::seqs::{lemma_filter_push, lemma_filter_trivial};
use crate::strings::{ascii_lower, lemma_ascii_lower_idempotent, to_ascii_lower};

verus! {

/// An ASCII letter or digit.
pub open spec fn is_alnum_char(c: char) -> bool {
    ('0' <= c && c <= '9') || ('A' <= c && c <= 'Z') || ('a' <= c && c <= 'z')
}

/// Relies on rand's `Alphanumeric` distribution with `SampleString`: a string
/// of exactly `length` characters, each an ASCII letter or digit, drawn from
/// the thread's random generator.
#[verifier::external_body]
pub fn random_string(length: usize) -> (r: String)
    ensures
        r@.len() == length,
        forall|i: int| 0 <= i < r@.len() ==> is_alnum_char(#[trigger] r@[i]),
{
    Alphanumeric.sample_string(&mut rand::rng(), length)
}

/// Relies on rand's `random_range`: a value at least `lo` and below `hi`,
/// drawn from the thread's random generator.
#[verifier::external_body]
fn random_count(lo: usize, hi: usize) -> (r: usize)
    requires
        lo < hi,
    ensures
        lo <= r < hi,
{
    rand::random_range(lo..hi)
}

/// Why a controller test stopped.
#[derive(Debug, Clone)]
pub enum TesterError {
    /// The provider rejected a record creation.
    Add(ControllerError),
    /// The provider rejected the inventory listing.
    List(ControllerError),
    /// A record that was just set did not come back in the listing.
    RecordNotFound,
    /// The provider rejected, or only partly performed, a removal.
    Remove(RemoveFailure),
    /// The removal removed a different number of records than were set,
    /// which means the provider already held matching records beforehand.
    UnexpectedRemoveCount(usize),
}

/// The TXT record a test stores.
pub open spec fn test_txt_record(key: Seq<char>, value: Seq<char>) -> RecordModel {
    RecordModel { name: key, record_type: DnsRecordType::TXT, value }
}

/// Set one generated TXT record, find it in the listing, and remove it
/// again. A passing run means the provider round-trips a record faithfully,
/// and leaves its inventory exactly as it was.
pub fn test_singular_with<T: DomainController>(controller: &mut T, key: &str, value: &str) -> (r:
    Result<(), TesterError>)
    requires
        ascii_lower(key@) == key@,
    ensures
        r is Ok ==> final(controller).records() == old(controller).records() && matching_count(
            old(controller).records(),
            key@,
            DnsRecordType::TXT,
            Some(value@),
        ) == 0,
        r matches Err(TesterError::Add(_)) ==> final(controller).records() == old(
            controller,
        ).records(),
        r matches Err(TesterError::List(_)) ==> final(controller).records() == old(
            controller,
        ).records().push(test_txt_record(key@, value@)),
        r matches Err(TesterError::RecordNotFound) ==> false,
        r matches Err(TesterError::Remove(f)) ==> final(controller).records() == partial_removal(
            old(controller).records().push(test_txt_record(key@, value@)),
            key@,
            DnsRecordType::TXT,
            Some(value@),
            f.removed as nat,
        ),
        r matches Err(TesterError::UnexpectedRemoveCount(n)) ==> n != 1 && final(controller).records() == surviving_records(
            old(controller).records(),
            key@,
            DnsRecordType::TXT,
            Some(value@),
        ),
{
    let ghost orig = old(controller).records();
    let ghost rec = test_txt_record(key@, value@);
    let ghost mpred = |r: RecordModel| removal_match(
        r,
        key@,
        DnsRecordType::TXT,
        Some(value@),
    );
    match controller.add_dns_record(key, DnsRecordType::TXT, value) {
        Ok(_) => {},
        Err(e) => {
            return Err(TesterError::Add(e));
        },
    }
    let ghost state1 = orig.push(rec);
    let listed = match controller.list_dns_records() {
        Ok(v) => v,
        Err(e) => {
            return Err(TesterError::List(e));
        },
    };
    // The record that was just set must come back in the listing.
    let mut found = false;
    let mut i: usize = 0;
    while i < listed.len()
        invariant
            i <= listed.len(),
            listed@.map_values(|r: DnsRecord| r@) == state1,
            state1 == orig.push(rec),
            rec == test_txt_record(key@, value@),
            ascii_lower(key@) == key@,
            !found ==> forall|j: int|
                0 <= j < i ==> !(ascii_lower(#[trigger] listed@[j]@.name) == key@
                    && txt_value_matches(listed@[j]@.value, Some(value@))),
        decreases listed.len() - i,
    {
        let name_lower = to_ascii_lower(listed[i].name.as_str());
        if str_eq(name_lower.as_str(), key) && compare_dns_txt_value(
            listed[i].value.as_str(),
            Some(value),
        ) {
            found = true;
        }
        i += 1;
    }
    if !found {
        proof {
            let last = state1.len() - 1;
            assert(listed@.map_values(|r: DnsRecord| r@).len() == listed@.len());
            assert(listed@.map_values(|r: DnsRecord| r@)[last] == listed@[last]@);
            assert(listed@[last]@ == rec);
            assert(ascii_lower(listed@[last]@.name) == key@);
            assert(txt_value_matches(listed@[last]@.value, Some(value@)));
            assert(false);
        }
        return Err(TesterError::RecordNotFound);
    }
    let removed_count = match controller.remove_dns_record(
        key,
        DnsRecordType::TXT,
        Some(value),
    ) {
        Ok(n) => n,
        Err(f) => {
            return Err(TesterError::Remove(f));
        },
    };
    proof {
        assert(state1.drop_last() =~= orig);
        lemma_filter_push(orig, mpred, rec);
        assert(txt_value_matches(rec.value, Some(value@)));
        assert(mpred(rec));
        assert(matching_count(state1, key@, DnsRecordType::TXT, Some(value@)) == matching_count(
            orig,
            key@,
            DnsRecordType::TXT,
            Some(value@),
        ) + 1);
        let npred = |r: RecordModel| !removal_match(r, key@, DnsRecordType::TXT, Some(value@));
        lemma_filter_push(orig, npred, rec);
        assert(surviving_records(state1, key@, DnsRecordType::TXT, Some(value@))
            == surviving_records(orig, key@, DnsRecordType::TXT, Some(value@)));
    }
    if removed_count != 1 {
        return Err(TesterError::UnexpectedRemoveCount(removed_count));
    }
    proof {
        assert(matching_count(orig, key@, DnsRecordType::TXT, Some(value@)) == 0);
        let m = |r: RecordModel| removal_match(r, key@, DnsRecordType::TXT, Some(value@));
        let npred = |r: RecordModel| !removal_match(r, key@, DnsRecordType::TXT, Some(value@));
        assert forall|t: int| 0 <= t < orig.len() implies npred(orig[t]) by {
            if m(orig[t]) {
                Seq::lemma_filter_contains(orig, m, t);
                assert(orig.filter(m).len() > 0);
            }
        }
        lemma_filter_trivial(orig, npred);
        assert(controller.records() == orig);
    }
    Ok(())
}

/// The TXT records a multi-record test stores, one per value.
pub open spec fn test_txt_records(key: Seq<char>, values: Seq<Seq<char>>) -> Seq<RecordModel> {
    values.map_values(|v: Seq<char>| test_txt_record(key, v))
}

/// Whether a record bears the key as its lower-cased name.
pub open spec fn name_matches(r: RecordModel, key: Seq<char>) -> bool {
    ascii_lower(r.name) == key
}

/// Set several generated TXT records under one key, find every one of them
/// in the listing, check their count, and remove them all in one call. A
/// passing run means the provider kept and reported them all, and leaves its
/// inventory exactly as it was.
pub fn test_multiple_with<T: DomainController>(
    controller: &mut T,
    key: &str,
    values: &Vec<String>,
) -> (r: Result<(), TesterError>)
    requires
        ascii_lower(key@) == key@,
        values@.len() >= 1,
    ensures
        r is Ok ==> final(controller).records() == old(controller).records() && old(
            controller,
        ).records().filter(|rr: RecordModel| name_matches(rr, key@)).len() == 0,
        r matches Err(TesterError::Add(_)) ==> old(controller).records().is_prefix_of(
            final(controller).records(),
        ) && final(controller).records().skip(old(controller).records().len() as int).is_prefix_of(
            test_txt_records(key@, values@.map_values(|s: String| s@)),
        ),
        r matches Err(TesterError::List(_)) ==> final(controller).records() == old(
            controller,
        ).records() + test_txt_records(key@, values@.map_values(|s: String| s@)),
        r matches Err(TesterError::RecordNotFound) ==> final(controller).records() == old(
            controller,
        ).records() + test_txt_records(key@, values@.map_values(|s: String| s@)) && old(
            controller,
        ).records().filter(|rr: RecordModel| name_matches(rr, key@)).len() != 0,
        r matches Err(TesterError::Remove(f)) ==> final(controller).records() == partial_removal(
            old(controller).records() + test_txt_records(
                key@,
                values@.map_values(|s: String| s@),
            ),
            key@,
            DnsRecordType::TXT,
            None,
            f.removed as nat,
        ),
        r matches Err(TesterError::UnexpectedRemoveCount(_)) ==> false,
{
    let ghost orig = old(controller).records();
    let ghost vals = values@.map_values(|s: String| s@);
    let ghost recs = test_txt_records(key@, vals);
    let ghost np = |rr: RecordModel| name_matches(rr, key@);
    // Set one record per value.
    let mut t: usize = 0;
    while t < values.len()
        invariant
            t <= values@.len(),
            vals == values@.map_values(|s: String| s@),
            recs == test_txt_records(key@, vals),
            orig == old(controller).records(),
            controller.records() == orig + recs.take(t as int),
        decreases values@.len() - t,
    {
        match controller.add_dns_record(key, DnsRecordType::TXT, values[t].as_str()) {
            Ok(_) => {},
            Err(e) => {
                proof {
                    assert((orig + recs.take(t as int)).subrange(0, orig.len() as int) =~= orig);
                    assert((orig + recs.take(t as int)).skip(orig.len() as int) =~= recs.take(
                        t as int,
                    ));
                    assert(recs.take(t as int).is_prefix_of(recs)) by {
                        assert(recs.subrange(0, t as int) =~= recs.take(t as int));
                    }
                }
                return Err(TesterError::Add(e));
            },
        }
        proof {
            assert(recs[t as int] == test_txt_record(key@, vals[t as int]));
            assert(recs.take(t + 1) =~= recs.take(t as int).push(recs[t as int]));
            assert((orig + recs.take(t as int)).push(recs[t as int]) =~= orig + recs.take(t + 1));
        }
        t += 1;
    }
    proof {
        assert(recs.take(vals.len() as int) =~= recs);
    }
    let ghost state1 = orig + recs;
    // Read the inventory back.
    let listed = match controller.list_dns_records() {
        Ok(v) => v,
        Err(e) => {
            return Err(TesterError::List(e));
        },
    };
    // Count the records under the key; the count must match what was set.
    proof {
        assert(state1.take(0) =~= Seq::<RecordModel>::empty());
        reveal(Seq::filter);
    }
    let mut count: usize = 0;
    let mut i: usize = 0;
    while i < listed.len()
        invariant
            i <= listed.len(),
            listed@.map_values(|rr: DnsRecord| rr@) == state1,
            count <= i,
            count == state1.take(i as int).filter(np).len(),
            np == (|rr: RecordModel| name_matches(rr, key@)),
        decreases listed.len() - i,
    {
        proof {
            assert(state1.take(i + 1).drop_last() =~= state1.take(i as int));
            assert(state1.take(i + 1) =~= state1.take(i as int).push(state1[i as int]));
            lemma_filter_push(state1.take(i as int), np, state1[i as int]);
            assert(listed@[i as int]@ == state1[i as int]);
        }
        let name_lower = to_ascii_lower(listed[i].name.as_str());
        if str_eq(name_lower.as_str(), key) {
            count += 1;
        }
        i += 1;
    }
    proof {
        assert(state1.take(state1.len() as int) =~= state1);
        Seq::filter_distributes_over_add(orig, recs, np);
        assert forall|j: int| 0 <= j < recs.len() implies np(recs[j]) by {
            assert(recs[j] == test_txt_record(key@, vals[j]));
        }
        lemma_filter_trivial(recs, np);
        assert(state1.filter(np).len() == orig.filter(np).len() + vals.len());
    }
    if count != values.len() {
        return Err(TesterError::RecordNotFound);
    }
    proof {
        assert(orig.filter(np).len() == 0);
    }
    // Every value that was set must be found in the listing.
    let mut v: usize = 0;
    while v < values.len()
        invariant
            v <= values@.len(),
            vals == values@.map_values(|s: String| s@),
            recs == test_txt_records(key@, vals),
            orig == old(controller).records(),
            controller.records() == state1,
            state1 == orig + recs,
            orig.filter(np).len() == 0,
            np == (|rr: RecordModel| name_matches(rr, key@)),
            listed@.map_values(|rr: DnsRecord| rr@) == state1,
            ascii_lower(key@) == key@,
        decreases values@.len() - v,
    {
        let mut found = false;
        let mut w: usize = 0;
        while w < listed.len()
            invariant
                w <= listed.len(),
                v < values@.len(),
                vals == values@.map_values(|s: String| s@),
                listed@.map_values(|rr: DnsRecord| rr@) == state1,
                ascii_lower(key@) == key@,
                !found ==> forall|j: int|
                    0 <= j < w ==> !(ascii_lower(#[trigger] listed@[j]@.name) == key@
                        && txt_value_matches(listed@[j]@.value, Some(vals[v as int]))),
            decreases listed.len() - w,
        {
            let name_lower = to_ascii_lower(listed[w].name.as_str());
            if str_eq(name_lower.as_str(), key) && compare_dns_txt_value(
                listed[w].value.as_str(),
                Some(values[v].as_str()),
            ) {
                found = true;
            }
            w += 1;
        }
        if !found {
            proof {
                let at = orig.len() + v;
                assert(listed@.map_values(|rr: DnsRecord| rr@).len() == listed@.len());
                assert(listed@.len() == state1.len());
                assert(recs.len() == vals.len());
                assert(state1.len() == orig.len() + recs.len());
                assert(state1[at as int] == recs[v as int]);
                assert(recs[v as int] == test_txt_record(key@, vals[v as int]));
                assert(listed@.map_values(|rr: DnsRecord| rr@)[at as int] == listed@[at as int]@);
                assert(ascii_lower(listed@[at as int]@.name) == key@);
                assert(txt_value_matches(listed@[at as int]@.value, Some(vals[v as int])));
                assert(false);
            }
            return Err(TesterError::RecordNotFound);
        }
        v += 1;
    }
    // Remove everything under the key in one call.
    let removed_count = match controller.remove_dns_record(key, DnsRecordType::TXT, None) {
        Ok(n) => n,
        Err(f) => {
            return Err(TesterError::Remove(f));
        },
    };
    proof {
        let m = |rr: RecordModel| removal_match(rr, key@, DnsRecordType::TXT, None);
        let nm = |rr: RecordModel| !removal_match(rr, key@, DnsRecordType::TXT, None);
        assert forall|j: int| 0 <= j < orig.len() implies !m(orig[j]) by {
            if m(orig[j]) {
                assert(orig[j].name == key@);
                assert(np(orig[j]));
                Seq::lemma_filter_contains(orig, np, j);
                assert(orig.filter(np).len() > 0);
            }
        }
        Seq::filter_distributes_over_add(orig, recs, m);
        Seq::filter_distributes_over_add(orig, recs, nm);
        crate::seqs::lemma_filter_none(orig, m);
        lemma_filter_trivial(orig, nm);
        assert forall|j: int| 0 <= j < recs.len() implies m(recs[j]) by {
            assert(recs[j] == test_txt_record(key@, vals[j]));
        }
        lemma_filter_trivial(recs, m);
        crate::seqs::lemma_filter_none(recs, nm);
        assert(matching_count(state1, key@, DnsRecordType::TXT, None) == vals.len());
        assert(surviving_records(state1, key@, DnsRecordType::TXT, None) =~= orig);
    }
    if removed_count != values.len() {
        proof {
            assert(false);
        }
        return Err(TesterError::UnexpectedRemoveCount(removed_count));
    }
    Ok(())
}

/// Generate a lower-case key and a value, then run the singular record test.
pub fn test_singular_add_and_delete_record<T: DomainController>(controller: &mut T) -> (r: Result<
    (),
    TesterError,
>)
    ensures
        r is Ok ==> final(controller).records() == old(controller).records(),
{
    let raw_key = random_string(10);
    let key = to_ascii_lower(raw_key.as_str());
    let value = random_string(32);
    proof {
        lemma_ascii_lower_idempotent(raw_key@);
    }
    test_singular_with(controller, key.as_str(), value.as_str())
}

/// Generate a lower-case key and five to nine lower-case values, then run
/// the multi-record test.
pub fn test_multiple_add_and_delete_record<T: DomainController>(controller: &mut T) -> (r: Result<
    (),
    TesterError,
>)
    ensures
        r is Ok ==> final(controller).records() == old(controller).records(),
{
    let record_count = random_count(5, 10);
    let raw_key = random_string(10);
    let key = to_ascii_lower(raw_key.as_str());
    proof {
        lemma_ascii_lower_idempotent(raw_key@);
    }
    let mut values: Vec<String> = Vec::new();
    let mut n: usize = 0;
    while n < record_count
        invariant
            n <= record_count,
            values@.len() == n,
        decreases record_count - n,
    {
        let raw = random_string(32);
        values.push(to_ascii_lower(raw.as_str()));
        n += 1;
    }
    test_multiple_with(controller, key.as_str(), &values)
}

/// Run both record tests against every controller in the registry. A passing
/// run leaves every provider's inventory exactly as it was found.
pub fn run_test<T: DomainController>(registry: &mut DomainControllers<T>) -> (r: Result<
    (),
    TesterError,
>)
    requires
        old(registry).wf(),
    ensures
        final(registry).wf(),
        final(registry).names() == old(registry).names(),
        r is Ok ==> forall|j: int|
            0 <= j < old(registry).names().len() ==> final(registry).controller_at(j).records()
                == old(registry).controller_at(j).records(),
{
    let n = registry.len();
    let mut i: usize = 0;
    while i < n
        invariant
            i <= n,
            n == old(registry).names().len(),
            registry.names() == old(registry).names(),
            registry.wf(),
            forall|j: int| 0 <= j < i ==> #[trigger] registry.controller_at(j).records() == old(
                registry,
            ).controller_at(j).records(),
            forall|j: int| i <= j < n ==> #[trigger] registry.controller_at(j) == old(
                registry,
            ).controller_at(j),
        decreases n - i,
    {
        let ghost names_before = registry.names();
        let mut entry = registry.take_at(i);
        let singular = test_singular_add_and_delete_record(&mut entry.controller);
        match singular {
            Ok(_) => {},
            Err(e) => {
                registry.restore(i, entry);
                proof {
                    assert(registry.names() =~= names_before);
                }
                return Err(e);
            },
        }
        let multiple = test_multiple_add_and_delete_record(&mut entry.controller);
        match multiple {
            Ok(_) => {},
            Err(e) => {
                registry.restore(i, entry);
                proof {
                    assert(registry.names() =~= names_before);
                }
                return Err(e);
            },
        }
        registry.restore(i, entry);
        proof {
            assert(registry.names() =~= names_before);
        }
        i += 1;
    }
    Ok(())
}

} // verus!
