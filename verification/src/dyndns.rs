//! The A-record reconciliation engine for the dynamic-DNS workflow.
//!
//! Given a target subdomain and a freshly discovered IP address, the engine
//! lists the provider's records, removes redundant duplicates, and corrects
//! the one remaining candidate — producing and enforcing the invariant that
//! exactly one A record for the subdomain remains after a successful run.

use vstd::prelude::*;

use crate::config::{first_index_of, lemma_first_index_of, DomainControllers};
use crate::domain_control::{
    lemma_partial_removal_filter, partial_removal, removal_match, ControllerError, DnsRecord,
    DnsRecordType, DomainController, RecordModel, RemoveFailure,
};
use crate::dyndns_run_options::SimplifiedDynDnsRunOptions;
use crate::helpers::{compare_dns_txt_value, opt_view, str_eq, txt_value_matches};
use crate::ipv4::{ipv4_text, Ipv4Address};
use crate::seqs::{
    lemma_filter_agree, lemma_filter_filter, lemma_filter_none, lemma_filter_push,
    lemma_filter_singleton, lemma_filter_trivial,
};

verus! {

/// Whether a record is an A record for the given subdomain.
pub open spec fn is_a_match(r: RecordModel, subdomain: Seq<char>) -> bool {
    r.name == subdomain && r.record_type == DnsRecordType::A
}

/// The predicate form of `is_a_match`.
pub open spec fn a_pred(subdomain: Seq<char>) -> spec_fn(RecordModel) -> bool {
    |r: RecordModel| is_a_match(r, subdomain)
}

/// The predicate keeping everything that is not an A record of the subdomain.
pub open spec fn non_a_pred(subdomain: Seq<char>) -> spec_fn(RecordModel) -> bool {
    |r: RecordModel| !is_a_match(r, subdomain)
}

/// The A records for the subdomain, in provider listing order.
pub open spec fn a_matches(rs: Seq<RecordModel>, subdomain: Seq<char>) -> Seq<RecordModel> {
    rs.filter(a_pred(subdomain))
}

/// Whether removing the first `k` candidates beyond the first — each matched
/// by its value — hits this record: its value quote-insensitively equals the
/// value of some candidate with index in `1..k`.
pub open spec fn hits_prefix(r: RecordModel, m: Seq<RecordModel>, k: int) -> bool {
    exists|j: int| 1 <= j < k && j < m.len() && txt_value_matches(r.value, Some(m[j].value))
}

/// Whether removing the redundant candidates — every one but the first —
/// by value hits this record: its value quote-insensitively equals the value
/// of some candidate beyond the first.
pub open spec fn redundant_removal_hits(r: RecordModel, m: Seq<RecordModel>) -> bool {
    hits_prefix(r, m, m.len() as int)
}

/// The predicate keeping what survives the removal of the candidates with
/// index in `1..k`.
pub open spec fn keep_prefix_pred(subdomain: Seq<char>, m: Seq<RecordModel>, k: int) -> spec_fn(
    RecordModel,
) -> bool {
    |r: RecordModel| !is_a_match(r, subdomain) || !hits_prefix(r, m, k)
}

/// A removed prefix that contains no candidate beyond the first hits nothing.
pub proof fn lemma_no_hits_empty_prefix(r: RecordModel, m: Seq<RecordModel>, k: int)
    requires
        k <= 1 || m.len() <= 1,
    ensures
        !hits_prefix(r, m, k),
{
    if hits_prefix(r, m, k) {
        let j = choose|j: int|
            1 <= j < k && j < m.len() && txt_value_matches(r.value, Some(m[j].value));
        assert(false);
    }
}

/// Extending the removed prefix by one candidate hits exactly what the
/// shorter prefix hit, plus whatever that candidate's value matches.
pub proof fn lemma_hits_prefix_step(r: RecordModel, m: Seq<RecordModel>, k: int)
    requires
        1 <= k < m.len(),
    ensures
        hits_prefix(r, m, k + 1) == (hits_prefix(r, m, k) || txt_value_matches(
            r.value,
            Some(m[k].value),
        )),
{
    if hits_prefix(r, m, k + 1) {
        let j = choose|j: int|
            1 <= j < k + 1 && j < m.len() && txt_value_matches(r.value, Some(m[j].value));
        if j < k {
            assert(hits_prefix(r, m, k));
        } else {
            assert(txt_value_matches(r.value, Some(m[k].value)));
        }
    }
    if hits_prefix(r, m, k) {
        let j = choose|j: int|
            1 <= j < k && j < m.len() && txt_value_matches(r.value, Some(m[j].value));
        assert(1 <= j < k + 1 && j < m.len() && txt_value_matches(r.value, Some(m[j].value)));
    }
    if txt_value_matches(r.value, Some(m[k].value)) {
        assert(1 <= k < k + 1 && k < m.len() && txt_value_matches(r.value, Some(m[k].value)));
    }
}

/// The predicate keeping what survives the removal of redundant candidates.
pub open spec fn keep_pred(subdomain: Seq<char>, m: Seq<RecordModel>) -> spec_fn(
    RecordModel,
) -> bool {
    |r: RecordModel| !is_a_match(r, subdomain) || !redundant_removal_hits(r, m)
}

/// The single record reconciliation aims to leave in place.
pub open spec fn canonical_a_record(subdomain: Seq<char>, ip: Seq<char>) -> RecordModel {
    RecordModel { name: subdomain, record_type: DnsRecordType::A, value: ip }
}

/// Whether the first candidate survives the removal of the redundant ones and
/// already carries the discovered IP, so that the run ends without further
/// corrective calls.
pub open spec fn first_candidate_kept(
    rs: Seq<RecordModel>,
    subdomain: Seq<char>,
    ip: Seq<char>,
) -> bool {
    let m = a_matches(rs, subdomain);
    m.len() >= 1 && !redundant_removal_hits(m[0], m) && m[0].value == ip
}

/// The provider state a successful reconciliation run leaves behind.
pub open spec fn reconciled_records(
    rs: Seq<RecordModel>,
    subdomain: Seq<char>,
    ip: Seq<char>,
) -> Seq<RecordModel> {
    let m = a_matches(rs, subdomain);
    if first_candidate_kept(rs, subdomain, ip) {
        rs.filter(keep_pred(subdomain, m))
    } else {
        rs.filter(non_a_pred(subdomain)).push(canonical_a_record(subdomain, ip))
    }
}

/// The corrective action a reconciliation run takes after redundant
/// candidates are removed.
#[derive(Debug, Clone, Copy, PartialEq, Eq, Structural)]
pub enum ReconcileAction {
    /// The surviving candidate already carried the discovered IP.
    NoOp,
    /// No candidate survived (or none existed): a record was added.
    Added,
    /// The surviving candidate carried a stale value: it was removed and a
    /// fresh record added.
    Replaced,
}

/// Which action a run over the given state takes.
pub open spec fn reconcile_action(
    rs: Seq<RecordModel>,
    subdomain: Seq<char>,
    ip: Seq<char>,
) -> ReconcileAction {
    let m = a_matches(rs, subdomain);
    if m.len() == 0 || redundant_removal_hits(m[0], m) {
        ReconcileAction::Added
    } else if m[0].value == ip {
        ReconcileAction::NoOp
    } else {
        ReconcileAction::Replaced
    }
}

/// How many removal calls a run issues for redundant candidates.
pub open spec fn redundant_count(rs: Seq<RecordModel>, subdomain: Seq<char>) -> nat {
    let m = a_matches(rs, subdomain);
    if m.len() == 0 {
        0
    } else {
        (m.len() - 1) as nat
    }
}

/// Duplicate collapse: whatever the provider state — no candidate, one
/// candidate, or many duplicates — after reconciliation exactly one A record
/// for the subdomain remains, and its value is the discovered IP.
pub proof fn lemma_reconciled_single_candidate(
    rs: Seq<RecordModel>,
    subdomain: Seq<char>,
    ip: Seq<char>,
)
    ensures
        a_matches(reconciled_records(rs, subdomain, ip), subdomain) == seq![
            canonical_a_record(subdomain, ip),
        ],
{
    let m = a_matches(rs, subdomain);
    let ap = a_pred(subdomain);
    let nap = non_a_pred(subdomain);
    let c = canonical_a_record(subdomain, ip);
    if first_candidate_kept(rs, subdomain, ip) {
        let keep = keep_pred(subdomain, m);
        let nh = |r: RecordModel| !redundant_removal_hits(r, m);
        lemma_filter_filter(rs, keep, ap);
        lemma_filter_filter(rs, ap, nh);
        lemma_filter_agree(
            rs,
            |r: RecordModel| keep(r) && ap(r),
            |r: RecordModel| ap(r) && nh(r),
        );
        // a_matches(result) == m.filter(nh)
        assert(a_matches(rs.filter(keep), subdomain) == m.filter(nh));
        crate::seqs::lemma_filter_element(rs, ap, 0);
        assert(is_a_match(m[0], subdomain));
        assert(m[0].value == ip);
        assert(m[0] =~= c);
        assert(m =~= seq![m[0]] + m.drop_first());
        Seq::filter_distributes_over_add(seq![m[0]], m.drop_first(), nh);
        lemma_filter_singleton(m[0], nh);
        assert forall|j: int| 0 <= j < m.drop_first().len() implies !nh(m.drop_first()[j]) by {
            assert(m.drop_first()[j] == m[j + 1]);
            assert(txt_value_matches(m[j + 1].value, Some(m[j + 1].value)));
            assert(redundant_removal_hits(m[j + 1], m));
        }
        lemma_filter_none(m.drop_first(), nh);
        assert(m.filter(nh) =~= seq![c]);
    } else {
        let base = rs.filter(nap);
        lemma_filter_push(base, ap, c);
        assert(ap(c));
        lemma_filter_filter(rs, nap, ap);
        lemma_filter_none(rs, |r: RecordModel| nap(r) && ap(r));
        assert(base.filter(ap) == Seq::<RecordModel>::empty());
        assert(a_matches(reconciled_records(rs, subdomain, ip), subdomain) == base.filter(
            ap,
        ).push(c));
        assert(Seq::<RecordModel>::empty().push(c) =~= seq![c]);
    }
}

/// Idempotence: reconciling an already reconciled state changes nothing; the
/// second run removes no redundant record and ends as a no-op, issuing zero
/// add or remove calls.
pub proof fn lemma_reconcile_idempotent(rs: Seq<RecordModel>, subdomain: Seq<char>, ip: Seq<char>)
    ensures
        reconciled_records(reconciled_records(rs, subdomain, ip), subdomain, ip)
            == reconciled_records(rs, subdomain, ip),
        reconcile_action(reconciled_records(rs, subdomain, ip), subdomain, ip)
            == ReconcileAction::NoOp,
        redundant_count(reconciled_records(rs, subdomain, ip), subdomain) == 0,
{
    let rr = reconciled_records(rs, subdomain, ip);
    let c = canonical_a_record(subdomain, ip);
    lemma_reconciled_single_candidate(rs, subdomain, ip);
    let m2 = a_matches(rr, subdomain);
    assert(m2 == seq![c]);
    assert(m2.len() == 1);
    assert forall|r: RecordModel| !redundant_removal_hits(r, m2) by {
        if redundant_removal_hits(r, m2) {
            let j = choose|j: int|
                1 <= j < m2.len() && txt_value_matches(r.value, Some(m2[j].value));
            assert(false);
        }
    }
    assert(m2[0].value == ip);
    assert(first_candidate_kept(rr, subdomain, ip));
    assert(reconcile_action(rr, subdomain, ip) == ReconcileAction::NoOp);
    lemma_filter_trivial(rr, keep_pred(subdomain, m2));
    assert(reconciled_records(rr, subdomain, ip) == rr);
}

/// Records that are not A records of the subdomain pass every prefix-removal
/// filter, so filtering them out afterwards sees the same sequence.
proof fn lemma_keep_prefix_frame(
    rs: Seq<RecordModel>,
    subdomain: Seq<char>,
    m: Seq<RecordModel>,
    k: int,
)
    ensures
        rs.filter(keep_prefix_pred(subdomain, m, k)).filter(non_a_pred(subdomain)) == rs.filter(
            non_a_pred(subdomain),
        ),
{
    let keep = keep_prefix_pred(subdomain, m, k);
    let nap = non_a_pred(subdomain);
    lemma_filter_filter(rs, keep, nap);
    lemma_filter_agree(rs, |r: RecordModel| keep(r) && nap(r), nap);
}

/// When the first candidate does not survive — or none exists — removing the
/// redundant candidates by value clears every A record of the subdomain.
proof fn lemma_all_candidates_hit(rs: Seq<RecordModel>, subdomain: Seq<char>, m: Seq<RecordModel>)
    requires
        m == a_matches(rs, subdomain),
        m.len() == 0 || redundant_removal_hits(m[0], m),
    ensures
        rs.filter(keep_pred(subdomain, m)) == rs.filter(non_a_pred(subdomain)),
{
    let keep = keep_pred(subdomain, m);
    let nap = non_a_pred(subdomain);
    assert forall|i: int| 0 <= i < rs.len() implies keep(rs[i]) == nap(rs[i]) by {
        let r = rs[i];
        if is_a_match(r, subdomain) {
            Seq::lemma_filter_contains(rs, a_pred(subdomain), i);
            assert(m.contains(r));
            let j = choose|j: int| 0 <= j < m.len() && m[j] == r;
            if j == 0 {
                assert(redundant_removal_hits(r, m));
            } else {
                assert(txt_value_matches(r.value, Some(m[j].value)));
                assert(hits_prefix(r, m, m.len() as int));
            }
        }
    }
    lemma_filter_agree(rs, keep, nap);
}

/// When the surviving first candidate is removed by its own value, every A
/// record of the subdomain is gone.
proof fn lemma_stale_removal_completes(
    rs: Seq<RecordModel>,
    subdomain: Seq<char>,
    m: Seq<RecordModel>,
)
    requires
        m == a_matches(rs, subdomain),
        m.len() >= 1,
        !redundant_removal_hits(m[0], m),
    ensures
        rs.filter(keep_pred(subdomain, m)).filter(
            (|r: RecordModel| !removal_match(
                r,
                subdomain,
                DnsRecordType::A,
                Some(m[0].value),
            )),
        ) == rs.filter(non_a_pred(subdomain)),
{
    let keep = keep_pred(subdomain, m);
    let nap = non_a_pred(subdomain);
    let rm0 = |r: RecordModel| !removal_match(r, subdomain, DnsRecordType::A, Some(m[0].value));
    lemma_filter_filter(rs, keep, rm0);
    let conj = |r: RecordModel| keep(r) && rm0(r);
    assert forall|i: int| 0 <= i < rs.len() implies conj(rs[i]) == nap(rs[i]) by {
        let r = rs[i];
        if is_a_match(r, subdomain) {
            Seq::lemma_filter_contains(rs, a_pred(subdomain), i);
            assert(m.contains(r));
            let j = choose|j: int| 0 <= j < m.len() && m[j] == r;
            if j == 0 {
                assert(txt_value_matches(r.value, Some(m[0].value)));
                assert(!rm0(r));
            } else {
                assert(txt_value_matches(r.value, Some(m[j].value)));
                assert(hits_prefix(r, m, m.len() as int));
                assert(!keep(r));
            }
        }
    }
    lemma_filter_agree(rs, conj, nap);
}

/// Reconciliation only touches A records of the subdomain: every other
/// record is preserved, in order.
pub proof fn lemma_reconciled_frame(rs: Seq<RecordModel>, subdomain: Seq<char>, ip: Seq<char>)
    ensures
        reconciled_records(rs, subdomain, ip).filter(non_a_pred(subdomain)) == rs.filter(
            non_a_pred(subdomain),
        ),
{
    let m = a_matches(rs, subdomain);
    let nap = non_a_pred(subdomain);
    let c = canonical_a_record(subdomain, ip);
    if first_candidate_kept(rs, subdomain, ip) {
        let keep = keep_pred(subdomain, m);
        lemma_filter_filter(rs, keep, nap);
        lemma_filter_agree(rs, |r: RecordModel| keep(r) && nap(r), nap);
    } else {
        let base = rs.filter(nap);
        lemma_filter_push(base, nap, c);
        assert(!nap(c));
        lemma_filter_filter(rs, nap, nap);
        lemma_filter_agree(rs, |r: RecordModel| nap(r) && nap(r), nap);
    }
}

/// The outcome of a successful reconciliation run.
#[derive(Debug, Clone, Copy)]
pub struct ReconcileOutcome {
    /// How many removal calls were issued for redundant candidates.
    pub removed_redundant: usize,
    /// The corrective action taken afterwards.
    pub action: ReconcileAction,
}

/// Why a reconciliation run stopped early. Whatever the failure, records
/// other than the subdomain's A records are untouched, and work already done
/// is not rolled back.
#[derive(Debug, Clone)]
pub enum ReconcileError {
    /// Listing the inventory failed; nothing was changed.
    List(ControllerError),
    /// Removing a redundant candidate failed: the provider state is
    /// inconsistent and cannot safely be continued past.
    RedundantRemoval(RemoveFailure),
    /// Removing the stale surviving candidate failed.
    StaleRemoval(RemoveFailure),
    /// Adding the corrected record failed.
    Add(ControllerError),
}

/// Reconcile the provider towards a single A record `subdomain = value_text`:
/// list the inventory, remove redundant candidates individually, then add,
/// replace or keep the one remaining candidate.
pub fn reconcile_a_record<T: DomainController>(
    controller: &mut T,
    subdomain: &str,
    value_text: &str,
) -> (r: Result<ReconcileOutcome, ReconcileError>)
    ensures
        final(controller).records().filter(non_a_pred(subdomain@)) == old(
            controller,
        ).records().filter(non_a_pred(subdomain@)),
        r matches Ok(out) ==> final(controller).records() == reconciled_records(
            old(controller).records(),
            subdomain@,
            value_text@,
        ) && out.action == reconcile_action(old(controller).records(), subdomain@, value_text@)
            && out.removed_redundant == redundant_count(old(controller).records(), subdomain@),
        r matches Err(ReconcileError::List(_)) ==> final(controller).records() == old(
            controller,
        ).records(),
        r matches Err(ReconcileError::RedundantRemoval(_)) ==> a_matches(
            old(controller).records(),
            subdomain@,
        ).len() > 1,
        r matches Err(ReconcileError::StaleRemoval(f)) ==> final(controller).records()
            == partial_removal(
            old(controller).records().filter(
                keep_pred(subdomain@, a_matches(old(controller).records(), subdomain@)),
            ),
            subdomain@,
            DnsRecordType::A,
            Some(a_matches(old(controller).records(), subdomain@)[0].value),
            f.removed as nat,
        ),
        r matches Err(ReconcileError::Add(_)) ==> a_matches(
            final(controller).records(),
            subdomain@,
        ).len() == 0,
{
    let ghost orig = old(controller).records();
    let ghost sub = subdomain@;
    let listed = match controller.list_dns_records() {
        Ok(v) => v,
        Err(e) => {
            proof {
                lemma_filter_agree(orig, non_a_pred(sub), non_a_pred(sub));
            }
            return Err(ReconcileError::List(e));
        },
    };
    // The candidates: A records whose name is exactly the subdomain, in
    // listing order.
    let mut candidates: Vec<DnsRecord> = Vec::new();
    let mut i: usize = 0;
    proof {
        assert(orig.take(0) =~= Seq::<RecordModel>::empty());
        reveal(Seq::filter);
    }
    while i < listed.len()
        invariant
            i <= listed.len(),
            orig == old(controller).records(),
            listed@.map_values(|r: DnsRecord| r@) == orig,
            controller.records() == orig,
            candidates@.map_values(|r: DnsRecord| r@) == orig.take(i as int).filter(a_pred(sub)),
            sub == subdomain@,
        decreases listed.len() - i,
    {
        let ghost cm = candidates@.map_values(|r: DnsRecord| r@);
        let rec = &listed[i];
        proof {
            assert(rec@ == orig[i as int]);
            assert(orig.take(i + 1).drop_last() =~= orig.take(i as int));
            assert(orig.take(i + 1) =~= orig.take(i as int).push(orig[i as int]));
            lemma_filter_push(orig.take(i as int), a_pred(sub), orig[i as int]);
        }
        if str_eq(rec.name.as_str(), subdomain) && rec.record_type == DnsRecordType::A {
            let copy = rec.duplicate();
            candidates.push(copy);
            proof {
                assert(is_a_match(orig[i as int], sub));
                assert(candidates@.map_values(|r: DnsRecord| r@) =~= cm.push(orig[i as int]));
            }
        } else {
            proof {
                assert(!is_a_match(orig[i as int], sub));
            }
        }
        i += 1;
    }
    let ghost m = a_matches(orig, sub);
    proof {
        assert(orig.take(orig.len() as int) =~= orig);
        assert(candidates@.map_values(|r: DnsRecord| r@) == m);
    }
    // Remove all candidates except the first one: duplicates are bad, and a
    // failure here means provider state that cannot safely be continued past.
    let mut k: usize = 1;
    proof {
        lemma_filter_trivial(orig, keep_prefix_pred(sub, m, 1));
    }
    while k < candidates.len()
        invariant
            1 <= k,
            k <= candidates.len() || candidates.len() == 0,
            orig == old(controller).records(),
            candidates@.map_values(|r: DnsRecord| r@) == m,
            m == a_matches(orig, sub),
            controller.records() == orig.filter(keep_prefix_pred(sub, m, k as int)),
            sub == subdomain@,
        decreases candidates.len() - k,
    {
        let ghost state_k = controller.records();
        let ghost keep_k = keep_prefix_pred(sub, m, k as int);
        proof {
            assert(candidates@[k as int]@ == m[k as int]);
        }
        let dup_value: &str = candidates[k].value.as_str();
        match controller.remove_dns_record(subdomain, DnsRecordType::A, Some(dup_value)) {
            Ok(_) => {
                proof {
                    let rm_k = |r: RecordModel| !removal_match(
                        r,
                        sub,
                        DnsRecordType::A,
                        Some(m[k as int].value),
                    );
                    assert(controller.records() == state_k.filter(rm_k));
                    lemma_filter_filter(orig, keep_k, rm_k);
                    let conj = |r: RecordModel| keep_k(r) && rm_k(r);
                    assert forall|t: int| 0 <= t < orig.len() implies conj(orig[t])
                        == keep_prefix_pred(sub, m, k + 1)(orig[t]) by {
                        let r = orig[t];
                        lemma_hits_prefix_step(r, m, k as int);
                    }
                    lemma_filter_agree(orig, conj, keep_prefix_pred(sub, m, k + 1));
                }
            },
            Err(f) => {
                proof {
                    assert(opt_view(Some(dup_value)) == Some(m[k as int].value));
                    assert(controller.records() == partial_removal(
                        state_k,
                        sub,
                        DnsRecordType::A,
                        Some(m[k as int].value),
                        f.removed as nat,
                    ));
                    assert forall|r: RecordModel|
                        removal_match(
                            r,
                            sub,
                            DnsRecordType::A,
                            Some(m[k as int].value),
                        ) implies !(non_a_pred(sub)(r)) by {
                        assert(is_a_match(r, sub));
                    }
                    lemma_partial_removal_filter(
                        state_k,
                        sub,
                        DnsRecordType::A,
                        Some(m[k as int].value),
                        f.removed as nat,
                        non_a_pred(sub),
                    );
                    assert(controller.records().filter(non_a_pred(sub)) == state_k.filter(
                        non_a_pred(sub),
                    ));
                    lemma_keep_prefix_frame(orig, sub, m, k as int);
                    assert(state_k.filter(non_a_pred(sub)) == orig.filter(non_a_pred(sub)));
                    assert(controller.records().filter(non_a_pred(subdomain@)) == old(
                        controller,
                    ).records().filter(non_a_pred(subdomain@)));
                    assert(m.len() > 1);
                }
                return Err(ReconcileError::RedundantRemoval(f));
            },
        }
        k += 1;
    }
    let ghost state1 = controller.records();
    proof {
        if candidates.len() == 0 {
            assert(m.len() == 0);
            assert forall|t: int| 0 <= t < orig.len() implies keep_prefix_pred(sub, m, k as int)(
                orig[t],
            ) by {
                lemma_no_hits_empty_prefix(orig[t], m, k as int);
            }
            lemma_filter_trivial(orig, keep_prefix_pred(sub, m, k as int));
            assert(state1 == orig);
            assert forall|t: int| 0 <= t < orig.len() implies keep_pred(sub, m)(orig[t]) by {
                lemma_no_hits_empty_prefix(orig[t], m, m.len() as int);
            }
            lemma_filter_trivial(orig, keep_pred(sub, m));
        } else {
            lemma_filter_agree(
                orig,
                keep_prefix_pred(sub, m, candidates@.len() as int),
                keep_pred(sub, m),
            );
        }
        assert(state1 == orig.filter(keep_pred(sub, m)));
        lemma_keep_prefix_frame(orig, sub, m, m.len() as int);
        lemma_filter_filter(orig, keep_pred(sub, m), non_a_pred(sub));
        lemma_filter_agree(
            orig,
            |r: RecordModel| keep_pred(sub, m)(r) && non_a_pred(sub)(r),
            non_a_pred(sub),
        );
        assert(state1.filter(non_a_pred(sub)) == orig.filter(non_a_pred(sub)));
    }
    if candidates.len() == 0 {
        // No candidate: add a new A record with the discovered value.
        match controller.add_dns_record(subdomain, DnsRecordType::A, value_text) {
            Ok(_) => {},
            Err(e) => {
                proof {
                    assert(controller.records() == state1);
                    assert(a_matches(controller.records(), sub).len() == 0);
                }
                return Err(ReconcileError::Add(e));
            },
        }
        proof {
            lemma_all_candidates_hit(orig, sub, m);
            assert(controller.records() == reconciled_records(orig, sub, value_text@));
            lemma_reconciled_frame(orig, sub, value_text@);
        }
        return Ok(
            ReconcileOutcome { removed_redundant: 0, action: ReconcileAction::Added },
        );
    }
    let removed_redundant = candidates.len() - 1;
    // Does the first candidate survive the removal of the redundant ones?
    let first = candidates[0].duplicate();
    proof {
        assert(first@ == m[0]);
    }
    let mut survives = true;
    let mut j: usize = 1;
    while j < candidates.len()
        invariant
            1 <= j,
            j <= candidates.len(),
            candidates@.map_values(|r: DnsRecord| r@) == m,
            first@ == m[0],
            survives == !hits_prefix(m[0], m, j as int),
            sub == subdomain@,
        decreases candidates.len() - j,
    {
        proof {
            assert(candidates@[j as int]@ == m[j as int]);
            lemma_hits_prefix_step(m[0], m, j as int);
        }
        if compare_dns_txt_value(first.value.as_str(), Some(candidates[j].value.as_str())) {
            survives = false;
        }
        j += 1;
    }
    proof {
        assert(survives == !redundant_removal_hits(m[0], m));
    }
    if !survives {
        // Every candidate was cleared along with the redundant ones: add the
        // record afresh.
        match controller.add_dns_record(subdomain, DnsRecordType::A, value_text) {
            Ok(_) => {},
            Err(e) => {
                proof {
                    lemma_all_candidates_hit(orig, sub, m);
                    lemma_filter_filter(orig, non_a_pred(sub), a_pred(sub));
                    lemma_filter_none(
                        orig,
                        |r: RecordModel| non_a_pred(sub)(r) && a_pred(sub)(r),
                    );
                    assert(a_matches(controller.records(), sub).len() == 0);
                }
                return Err(ReconcileError::Add(e));
            },
        }
        proof {
            lemma_all_candidates_hit(orig, sub, m);
            assert(controller.records() == reconciled_records(orig, sub, value_text@));
            lemma_reconciled_frame(orig, sub, value_text@);
        }
        return Ok(
            ReconcileOutcome { removed_redundant, action: ReconcileAction::Added },
        );
    }
    if str_eq(first.value.as_str(), value_text) {
        // The surviving candidate already carries the value: nothing to do.
        proof {
            assert(first_candidate_kept(orig, sub, value_text@));
            assert(controller.records() == reconciled_records(orig, sub, value_text@));
            lemma_reconciled_frame(orig, sub, value_text@);
        }
        return Ok(
            ReconcileOutcome { removed_redundant, action: ReconcileAction::NoOp },
        );
    }
    // The surviving candidate is stale: remove it by its exact old value,
    // then add the fresh one — the contract has no in-place update.
    match controller.remove_dns_record(subdomain, DnsRecordType::A, Some(first.value.as_str())) {
        Ok(_) => {},
        Err(f) => {
            proof {
                assert(first.value@ == m[0].value);
                lemma_partial_removal_filter(
                    state1,
                    sub,
                    DnsRecordType::A,
                    Some(m[0].value),
                    f.removed as nat,
                    non_a_pred(sub),
                );
            }
            return Err(ReconcileError::StaleRemoval(f));
        },
    }
    proof {
        lemma_stale_removal_completes(orig, sub, m);
        assert(controller.records() == orig.filter(non_a_pred(sub)));
    }
    match controller.add_dns_record(subdomain, DnsRecordType::A, value_text) {
        Ok(_) => {},
        Err(e) => {
            proof {
                lemma_filter_filter(orig, non_a_pred(sub), non_a_pred(sub));
                lemma_filter_agree(
                    orig,
                    |r: RecordModel| non_a_pred(sub)(r) && non_a_pred(sub)(r),
                    non_a_pred(sub),
                );
                lemma_filter_filter(orig, non_a_pred(sub), a_pred(sub));
                lemma_filter_none(
                    orig,
                    |r: RecordModel| non_a_pred(sub)(r) && a_pred(sub)(r),
                );
                assert(a_matches(controller.records(), sub).len() == 0);
            }
            return Err(ReconcileError::Add(e));
        },
    }
    proof {
        assert(!first_candidate_kept(orig, sub, value_text@));
        assert(controller.records() == reconciled_records(orig, sub, value_text@));
        lemma_reconciled_frame(orig, sub, value_text@);
    }
    Ok(ReconcileOutcome { removed_redundant, action: ReconcileAction::Replaced })
}

/// Reconcile the subdomain's A record to the discovered IP address.
pub fn set_ipv4_record<T: DomainController>(
    controller: &mut T,
    subdomain: &str,
    ip: &Ipv4Address,
) -> (r: Result<ReconcileOutcome, ReconcileError>)
    ensures
        final(controller).records().filter(non_a_pred(subdomain@)) == old(
            controller,
        ).records().filter(non_a_pred(subdomain@)),
        r matches Ok(out) ==> final(controller).records() == reconciled_records(
            old(controller).records(),
            subdomain@,
            ipv4_text(*ip),
        ) && out.action == reconcile_action(old(controller).records(), subdomain@, ipv4_text(*ip))
            && out.removed_redundant == redundant_count(old(controller).records(), subdomain@),
        r matches Err(ReconcileError::List(_)) ==> final(controller).records() == old(
            controller,
        ).records(),
{
    let text = ip.to_text();
    reconcile_a_record(controller, subdomain, text.as_str())
}

/// Why a dyndns run stopped.
#[derive(Debug, Clone)]
pub enum DynDnsRunError {
    /// The account domain has no controller in the registry: a fatal
    /// configuration error, reported before any provider call.
    DomainControllerNotFound,
    /// The reconciliation against the provider failed.
    Reconcile(ReconcileError),
}

/// Run the dynamic-DNS update: reconcile the subdomain's A record, through
/// the controller registered for the account domain, to the discovered IP
/// address.
pub fn run_regular<T: DomainController>(
    registry: &mut DomainControllers<T>,
    args: SimplifiedDynDnsRunOptions,
    ip: &Ipv4Address,
) -> (r: Result<ReconcileOutcome, DynDnsRunError>)
    requires
        old(registry).wf(),
    ensures
        final(registry).wf(),
        final(registry).names() == old(registry).names(),
        (r matches Err(DynDnsRunError::DomainControllerNotFound)) == (first_index_of(
            old(registry).names(),
            args.account_domain_name@,
        ) < 0),
        forall|j: int|
            0 <= j < old(registry).names().len() && j != first_index_of(
                old(registry).names(),
                args.account_domain_name@,
            ) ==> final(registry).controller_at(j) == old(registry).controller_at(j),
        ({
            let i = first_index_of(old(registry).names(), args.account_domain_name@);
            let before = old(registry).controller_at(i).records();
            let after = final(registry).controller_at(i).records();
            i >= 0 ==> {
                &&& after.filter(non_a_pred(args.subdomain@)) == before.filter(
                    non_a_pred(args.subdomain@),
                )
                &&& r matches Ok(out) ==> after == reconciled_records(
                    before,
                    args.subdomain@,
                    ipv4_text(*ip),
                ) && out.action == reconcile_action(before, args.subdomain@, ipv4_text(*ip))
                    && out.removed_redundant == redundant_count(before, args.subdomain@)
            }
        }),
{
    proof {
        lemma_first_index_of(old(registry).names(), args.account_domain_name@);
    }
    let i = match registry.find(args.account_domain_name.as_str()) {
        Some(i) => i,
        None => {
            return Err(DynDnsRunError::DomainControllerNotFound);
        },
    };
    let mut entry = registry.take_at(i);
    let result = set_ipv4_record(&mut entry.controller, args.subdomain.as_str(), ip);
    registry.restore(i, entry);
    proof {
        assert(registry.names() =~= old(registry).names());
    }
    match result {
        Ok(out) => Ok(out),
        Err(e) => Err(DynDnsRunError::Reconcile(e)),
    }
}

} // verus!
