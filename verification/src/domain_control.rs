//! The DNS record model and the capability contract (`DomainController`)
//! that every provider adapter satisfies.

use vstd::prelude::*;

use crate::helpers::{opt_view, txt_value_matches};
use crate::strings::{ascii_lower, eq_ignore_ascii_case};

verus! {

/// The closed set of DNS record types the system handles.
#[derive(Debug, Clone, Copy, PartialEq, Eq, Hash, Structural)]
pub enum DnsRecordType {
    A,
    AAAA,
    CAA,
    CNAME,
    MX,
    NS,
    PTR,
    SOA,
    SRV,
    TXT,
}

/// The canonical upper-case token of a record type.
pub open spec fn record_type_text(t: DnsRecordType) -> Seq<char> {
    match t {
        DnsRecordType::A => seq!['A'],
        DnsRecordType::AAAA => seq!['A', 'A', 'A', 'A'],
        DnsRecordType::CAA => seq!['C', 'A', 'A'],
        DnsRecordType::CNAME => seq!['C', 'N', 'A', 'M', 'E'],
        DnsRecordType::MX => seq!['M', 'X'],
        DnsRecordType::NS => seq!['N', 'S'],
        DnsRecordType::PTR => seq!['P', 'T', 'R'],
        DnsRecordType::SOA => seq!['S', 'O', 'A'],
        DnsRecordType::SRV => seq!['S', 'R', 'V'],
        DnsRecordType::TXT => seq!['T', 'X', 'T'],
    }
}

/// Case-insensitive parsing of a record type token.
pub open spec fn record_type_of_text(s: Seq<char>) -> Option<DnsRecordType> {
    if ascii_lower(s) == ascii_lower(record_type_text(DnsRecordType::A)) {
        Some(DnsRecordType::A)
    } else if ascii_lower(s) == ascii_lower(record_type_text(DnsRecordType::AAAA)) {
        Some(DnsRecordType::AAAA)
    } else if ascii_lower(s) == ascii_lower(record_type_text(DnsRecordType::CAA)) {
        Some(DnsRecordType::CAA)
    } else if ascii_lower(s) == ascii_lower(record_type_text(DnsRecordType::CNAME)) {
        Some(DnsRecordType::CNAME)
    } else if ascii_lower(s) == ascii_lower(record_type_text(DnsRecordType::MX)) {
        Some(DnsRecordType::MX)
    } else if ascii_lower(s) == ascii_lower(record_type_text(DnsRecordType::NS)) {
        Some(DnsRecordType::NS)
    } else if ascii_lower(s) == ascii_lower(record_type_text(DnsRecordType::PTR)) {
        Some(DnsRecordType::PTR)
    } else if ascii_lower(s) == ascii_lower(record_type_text(DnsRecordType::SOA)) {
        Some(DnsRecordType::SOA)
    } else if ascii_lower(s) == ascii_lower(record_type_text(DnsRecordType::SRV)) {
        Some(DnsRecordType::SRV)
    } else if ascii_lower(s) == ascii_lower(record_type_text(DnsRecordType::TXT)) {
        Some(DnsRecordType::TXT)
    } else {
        None
    }
}

impl DnsRecordType {
    /// The canonical upper-case token of the record type.
    pub fn to_text(&self) -> (r: String)
        ensures
            r@ == record_type_text(*self),
    {
        match self {
            DnsRecordType::A => {
                let r = String::from_str("A");
                proof {
                    reveal_strlit("A");
                    assert(r@ =~= record_type_text(DnsRecordType::A));
                }
                r
            },
            DnsRecordType::AAAA => {
                let r = String::from_str("AAAA");
                proof {
                    reveal_strlit("AAAA");
                    assert(r@ =~= record_type_text(DnsRecordType::AAAA));
                }
                r
            },
            DnsRecordType::CAA => {
                let r = String::from_str("CAA");
                proof {
                    reveal_strlit("CAA");
                    assert(r@ =~= record_type_text(DnsRecordType::CAA));
                }
                r
            },
            DnsRecordType::CNAME => {
                let r = String::from_str("CNAME");
                proof {
                    reveal_strlit("CNAME");
                    assert(r@ =~= record_type_text(DnsRecordType::CNAME));
                }
                r
            },
            DnsRecordType::MX => {
                let r = String::from_str("MX");
                proof {
                    reveal_strlit("MX");
                    assert(r@ =~= record_type_text(DnsRecordType::MX));
                }
                r
            },
            DnsRecordType::NS => {
                let r = String::from_str("NS");
                proof {
                    reveal_strlit("NS");
                    assert(r@ =~= record_type_text(DnsRecordType::NS));
                }
                r
            },
            DnsRecordType::PTR => {
                let r = String::from_str("PTR");
                proof {
                    reveal_strlit("PTR");
                    assert(r@ =~= record_type_text(DnsRecordType::PTR));
                }
                r
            },
            DnsRecordType::SOA => {
                let r = String::from_str("SOA");
                proof {
                    reveal_strlit("SOA");
                    assert(r@ =~= record_type_text(DnsRecordType::SOA));
                }
                r
            },
            DnsRecordType::SRV => {
                let r = String::from_str("SRV");
                proof {
                    reveal_strlit("SRV");
                    assert(r@ =~= record_type_text(DnsRecordType::SRV));
                }
                r
            },
            DnsRecordType::TXT => {
                let r = String::from_str("TXT");
                proof {
                    reveal_strlit("TXT");
                    assert(r@ =~= record_type_text(DnsRecordType::TXT));
                }
                r
            },
        }
    }

    /// Case-insensitive parsing of a record type token.
    pub fn from_str(s: &str) -> (r: Result<DnsRecordType, String>)
        ensures
            r matches Ok(t) ==> record_type_of_text(s@) == Some(t),
            r is Err ==> record_type_of_text(s@) is None,
    {
        proof {
            reveal_strlit("A");
            reveal_strlit("AAAA");
            reveal_strlit("CAA");
            reveal_strlit("CNAME");
            reveal_strlit("MX");
            reveal_strlit("NS");
            reveal_strlit("PTR");
            reveal_strlit("SOA");
            reveal_strlit("SRV");
            reveal_strlit("TXT");
            assert("A"@ =~= record_type_text(DnsRecordType::A));
            assert("AAAA"@ =~= record_type_text(DnsRecordType::AAAA));
            assert("CAA"@ =~= record_type_text(DnsRecordType::CAA));
            assert("CNAME"@ =~= record_type_text(DnsRecordType::CNAME));
            assert("MX"@ =~= record_type_text(DnsRecordType::MX));
            assert("NS"@ =~= record_type_text(DnsRecordType::NS));
            assert("PTR"@ =~= record_type_text(DnsRecordType::PTR));
            assert("SOA"@ =~= record_type_text(DnsRecordType::SOA));
            assert("SRV"@ =~= record_type_text(DnsRecordType::SRV));
            assert("TXT"@ =~= record_type_text(DnsRecordType::TXT));
        }
        if eq_ignore_ascii_case(s, "A") {
            Ok(DnsRecordType::A)
        } else if eq_ignore_ascii_case(s, "AAAA") {
            Ok(DnsRecordType::AAAA)
        } else if eq_ignore_ascii_case(s, "CAA") {
            Ok(DnsRecordType::CAA)
        } else if eq_ignore_ascii_case(s, "CNAME") {
            Ok(DnsRecordType::CNAME)
        } else if eq_ignore_ascii_case(s, "MX") {
            Ok(DnsRecordType::MX)
        } else if eq_ignore_ascii_case(s, "NS") {
            Ok(DnsRecordType::NS)
        } else if eq_ignore_ascii_case(s, "PTR") {
            Ok(DnsRecordType::PTR)
        } else if eq_ignore_ascii_case(s, "SOA") {
            Ok(DnsRecordType::SOA)
        } else if eq_ignore_ascii_case(s, "SRV") {
            Ok(DnsRecordType::SRV)
        } else if eq_ignore_ascii_case(s, "TXT") {
            Ok(DnsRecordType::TXT)
        } else {
            let mut e = String::from_str("Unknown DNS record type: ");
            e.append(s);
            Err(e)
        }
    }
}

/// Round trip: the canonical token of a record type parses back to the same
/// variant, and so does any spelling of it in any ASCII case.
pub proof fn lemma_record_type_round_trip(t: DnsRecordType, s: Seq<char>)
    ensures
        record_type_of_text(record_type_text(t)) == Some(t),
        ascii_lower(s) == ascii_lower(record_type_text(t)) ==> record_type_of_text(s) == Some(t),
{
    assert(ascii_lower(record_type_text(DnsRecordType::A)) =~= seq!['a']);
    assert(ascii_lower(record_type_text(DnsRecordType::AAAA)) =~= seq!['a', 'a', 'a', 'a']);
    assert(ascii_lower(record_type_text(DnsRecordType::CAA)) =~= seq!['c', 'a', 'a']);
    assert(ascii_lower(record_type_text(DnsRecordType::CNAME)) =~= seq!['c', 'n', 'a', 'm', 'e']);
    assert(ascii_lower(record_type_text(DnsRecordType::MX)) =~= seq!['m', 'x']);
    assert(ascii_lower(record_type_text(DnsRecordType::NS)) =~= seq!['n', 's']);
    assert(ascii_lower(record_type_text(DnsRecordType::PTR)) =~= seq!['p', 't', 'r']);
    assert(ascii_lower(record_type_text(DnsRecordType::SOA)) =~= seq!['s', 'o', 'a']);
    assert(ascii_lower(record_type_text(DnsRecordType::SRV)) =~= seq!['s', 'r', 'v']);
    assert(ascii_lower(record_type_text(DnsRecordType::TXT)) =~= seq!['t', 'x', 't']);
}

/// A DNS record as exchanged between all components: an immutable value,
/// never mutated in place — always replaced via remove and add.
#[derive(Debug, Clone)]
pub struct DnsRecord {
    pub name: String,
    pub record_type: DnsRecordType,
    pub value: String,
}

/// The mathematical model of a `DnsRecord`.
#[verifier::ext_equal]
pub struct RecordModel {
    pub name: Seq<char>,
    pub record_type: DnsRecordType,
    pub value: Seq<char>,
}

impl View for DnsRecord {
    type V = RecordModel;

    open spec fn view(&self) -> RecordModel {
        RecordModel { name: self.name@, record_type: self.record_type, value: self.value@ }
    }
}

impl DnsRecord {
    /// A field-for-field copy of the record.
    pub fn duplicate(&self) -> (c: DnsRecord)
        ensures
            c@ == self@,
    {
        DnsRecord {
            name: self.name.clone(),
            record_type: self.record_type,
            value: self.value.clone(),
        }
    }
}

impl PartialEq for DnsRecord {
    fn eq(&self, other: &DnsRecord) -> (r: bool) {
        self.name == other.name && self.record_type == other.record_type && self.value
            == other.value
    }
}

impl vstd::std_specs::cmp::PartialEqSpecImpl for DnsRecord {
    open spec fn obeys_eq_spec() -> bool {
        true
    }

    open spec fn eq_spec(&self, other: &DnsRecord) -> bool {
        self@ == other@
    }
}

/// An error surfaced by a provider: a non-success HTTP status, a transport
/// error, or a response-shape mismatch.
#[derive(Debug, Clone)]
pub struct ControllerError {
    pub message: String,
}

/// The outcome of a removal that failed partway: the records already removed
/// are not rolled back, and their count is reported alongside the error.
#[derive(Debug, Clone)]
pub struct RemoveFailure {
    pub removed: usize,
    pub error: ControllerError,
}

/// Whether a removal request for `(name, record_type, value)` matches a
/// stored record. The value comparison is quote-insensitive; an absent value
/// matches every record with that name and type.
pub open spec fn removal_match(
    r: RecordModel,
    name: Seq<char>,
    record_type: DnsRecordType,
    value: Option<Seq<char>>,
) -> bool {
    r.name == name && r.record_type == record_type && txt_value_matches(r.value, value)
}

/// The records that survive a removal request: everything that does not match.
pub open spec fn surviving_records(
    rs: Seq<RecordModel>,
    name: Seq<char>,
    record_type: DnsRecordType,
    value: Option<Seq<char>>,
) -> Seq<RecordModel> {
    rs.filter(|r: RecordModel| !removal_match(r, name, record_type, value))
}

/// How many stored records a removal request matches.
pub open spec fn matching_count(
    rs: Seq<RecordModel>,
    name: Seq<char>,
    record_type: DnsRecordType,
    value: Option<Seq<char>>,
) -> nat {
    rs.filter(|r: RecordModel| removal_match(r, name, record_type, value)).len()
}

/// The state left behind when a removal stops after deleting the first
/// `budget` matching records (in listing order): matches beyond the budget,
/// and every non-matching record, stay.
pub open spec fn partial_removal(
    rs: Seq<RecordModel>,
    name: Seq<char>,
    record_type: DnsRecordType,
    value: Option<Seq<char>>,
    budget: nat,
) -> Seq<RecordModel>
    decreases rs.len(),
{
    if rs.len() == 0 {
        rs
    } else if removal_match(rs.first(), name, record_type, value) {
        if budget == 0 {
            rs
        } else {
            partial_removal(rs.drop_first(), name, record_type, value, (budget - 1) as nat)
        }
    } else {
        seq![rs.first()] + partial_removal(rs.drop_first(), name, record_type, value, budget)
    }
}

/// When a removal stops at position `i` — a matching record that could not be
/// deleted — the state it leaves is the partial removal whose budget is the
/// number of matches strictly before `i`: the prefix is cleansed of matches
/// and the rest of the sequence is untouched. That budget is strictly below
/// the total number of matches.
pub proof fn lemma_partial_removal_at(
    rs: Seq<RecordModel>,
    name: Seq<char>,
    record_type: DnsRecordType,
    value: Option<Seq<char>>,
    i: int,
)
    requires
        0 <= i < rs.len(),
        removal_match(rs[i], name, record_type, value),
    ensures
        matching_count(rs.take(i), name, record_type, value) < matching_count(
            rs,
            name,
            record_type,
            value,
        ),
        partial_removal(
            rs,
            name,
            record_type,
            value,
            matching_count(rs.take(i), name, record_type, value),
        ) == rs.take(i).filter(|r: RecordModel| !removal_match(r, name, record_type, value))
            + rs.skip(i),
    decreases i,
{
    broadcast use vstd::seq_lib::group_filter_ensures;

    let m = |r: RecordModel| removal_match(r, name, record_type, value);
    let nm = |r: RecordModel| !removal_match(r, name, record_type, value);
    reveal(Seq::filter);
    if i == 0 {
        assert(rs.take(0) =~= Seq::<RecordModel>::empty());
        assert(rs.skip(0) =~= rs);
        assert(matching_count(rs.take(0), name, record_type, value) == 0);
        assert(rs.filter(m).contains(rs[0])) by {
            Seq::lemma_filter_contains(rs, m, 0);
        }
        assert(rs.filter(m).len() > 0);
        assert(Seq::<RecordModel>::empty() + rs =~= rs);
    } else {
        let rest = rs.drop_first();
        assert(rest[i - 1] == rs[i]);
        lemma_partial_removal_at(rest, name, record_type, value, i - 1);
        let head = seq![rs[0]];
        assert(rs.take(i) =~= head + rest.take(i - 1));
        assert(rs.skip(i) =~= rest.skip(i - 1));
        assert(rs =~= head + rest);
        Seq::filter_distributes_over_add(head, rest.take(i - 1), m);
        Seq::filter_distributes_over_add(head, rest.take(i - 1), nm);
        Seq::filter_distributes_over_add(head, rest, m);
        crate::seqs::lemma_filter_singleton(rs[0], m);
        crate::seqs::lemma_filter_singleton(rs[0], nm);
        assert(rs.first() == rs[0]);
        if m(rs[0]) {
            assert(head.filter(m) == head);
            assert(head.filter(nm) == Seq::<RecordModel>::empty());
            let k = matching_count(rest.take(i - 1), name, record_type, value);
            assert(matching_count(rs.take(i), name, record_type, value) == 1 + k);
            assert(partial_removal(rs, name, record_type, value, (1 + k) as nat)
                == partial_removal(rest, name, record_type, value, k));
            assert(head.filter(nm) + (rest.take(i - 1).filter(nm) + rest.skip(i - 1)) =~= rest.take(
                i - 1,
            ).filter(nm) + rest.skip(i - 1));
            assert(rs.take(i).filter(nm) + rs.skip(i) =~= rest.take(i - 1).filter(nm) + rest.skip(
                i - 1,
            ));
        } else {
            assert(head.filter(m) == Seq::<RecordModel>::empty());
            assert(head.filter(nm) == head);
            let k = matching_count(rest.take(i - 1), name, record_type, value);
            assert(matching_count(rs.take(i), name, record_type, value) == k);
            assert(partial_removal(rs, name, record_type, value, k) == head + partial_removal(
                rest,
                name,
                record_type,
                value,
                k,
            ));
            assert(head + (rest.take(i - 1).filter(nm) + rest.skip(i - 1)) =~= rs.take(i).filter(nm)
                + rs.skip(i));
        }
    }
}

/// A partial removal deletes only matching records, so any filter that is
/// false on every matching record sees the same sequence before and after.
pub proof fn lemma_partial_removal_filter(
    rs: Seq<RecordModel>,
    name: Seq<char>,
    record_type: DnsRecordType,
    value: Option<Seq<char>>,
    budget: nat,
    q: spec_fn(RecordModel) -> bool,
)
    requires
        forall|r: RecordModel| removal_match(r, name, record_type, value) ==> !q(r),
    ensures
        partial_removal(rs, name, record_type, value, budget).filter(q) == rs.filter(q),
    decreases rs.len(),
{
    if rs.len() > 0 {
        let head = seq![rs.first()];
        let rest = rs.drop_first();
        assert(rs =~= head + rest);
        Seq::filter_distributes_over_add(head, rest, q);
        crate::seqs::lemma_filter_singleton(rs.first(), q);
        if removal_match(rs.first(), name, record_type, value) {
            if budget == 0 {
            } else {
                lemma_partial_removal_filter(
                    rest,
                    name,
                    record_type,
                    value,
                    (budget - 1) as nat,
                    q,
                );
                assert(Seq::<RecordModel>::empty() + rest.filter(q) =~= rest.filter(q));
            }
        } else {
            lemma_partial_removal_filter(rest, name, record_type, value, budget, q);
            let tail = partial_removal(rest, name, record_type, value, budget);
            Seq::filter_distributes_over_add(head, tail, q);
        }
    }
}

/// The capability contract for adding, removing and listing DNS records
/// against one provider/domain pair. The reconciliation logic depends only on
/// this, never on a concrete provider; adapters implement it by translating
/// the three operations into provider-specific requests.
pub trait DomainController: Sized {
    /// The provider's current inventory for the domain, in listing order.
    /// Implementations that model their state override this; for one that
    /// does not, the inventory is unspecified.
    open spec fn records(&self) -> Seq<RecordModel> {
        vstd::pervasive::arbitrary()
    }

    /// Create a new record. Does not deduplicate: adding twice creates two
    /// records at the provider.
    fn add_dns_record(&mut self, name: &str, record_type: DnsRecordType, value: &str) -> (r: Result<
        (),
        ControllerError,
    >)
        ensures
            r is Ok ==> final(self).records() == old(self).records().push(
                (RecordModel { name: name@, record_type, value: value@ }),
            ),
            r is Err ==> final(self).records() == old(self).records(),
    ;

    /// Remove every record matching `(name, record_type, value)`; an absent
    /// `value` removes all records with that name and type. Returns the count
    /// removed. Partial success is possible: when removal fails after some
    /// records have been deleted, the work already done is not rolled back and
    /// the count is reported in the failure.
    fn remove_dns_record(
        &mut self,
        name: &str,
        record_type: DnsRecordType,
        value: Option<&str>,
    ) -> (r: Result<usize, RemoveFailure>)
        ensures
            r matches Ok(n) ==> n == matching_count(
                old(self).records(),
                name@,
                record_type,
                opt_view(value),
            ) && final(self).records() == surviving_records(
                old(self).records(),
                name@,
                record_type,
                opt_view(value),
            ),
            r matches Err(f) ==> f.removed <= matching_count(
                old(self).records(),
                name@,
                record_type,
                opt_view(value),
            ) && final(self).records() == partial_removal(
                old(self).records(),
                name@,
                record_type,
                opt_view(value),
                f.removed as nat,
            ),
    ;

    /// The full inventory for the provider's domain; implementations must not
    /// silently swallow partial results.
    fn list_dns_records(&self) -> (r: Result<Vec<DnsRecord>, ControllerError>)
        ensures
            r matches Ok(v) ==> v@.map_values(|rec: DnsRecord| rec@) == self.records(),
    ;
}

} // verus!
