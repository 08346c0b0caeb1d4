//! The Epik provider adapter: its configuration record and the pure parts of
//! its wire protocol — request URLs, the record-creation body, and the
//! interpretation of listed records.
//!
//! Epik requires only a signature string on each request; security is based
//! on IP address whitelisting. To add another provider, create a similar
//! configuration struct and implement the `DomainController` contract by
//! translating its three operations into the provider's requests.

use vstd::prelude::*;

use crate::domain_control::{record_type_text, DnsRecord, DnsRecordType, RecordModel};
use crate::helpers::{compare_dns_txt_value, opt_view, str_eq, txt_value_matches};
use crate::seqs::lemma_filter_push;
use crate::strings::push_char;

verus! {

/// The time-to-live set on created records.
pub const DEFAULT_TTL: u32 = 360;

/// The auxiliary value set on created records.
pub const DEFAULT_AUX: u32 = 0;

/// The per-domain Epik configuration: the domain name and the API signature.
#[derive(Debug, Clone)]
pub struct Epik {
    domain_name: String,
    signature: String,
}

impl Epik {
    /// The domain name this configuration controls.
    pub closed spec fn domain_name_view(&self) -> Seq<char> {
        self.domain_name@
    }

    /// The API signature of this configuration.
    pub closed spec fn signature_view(&self) -> Seq<char> {
        self.signature@
    }

    /// An Epik configuration from its two credentials.
    pub fn new(domain_name: String, signature: String) -> (e: Epik)
        ensures
            e.domain_name_view() == domain_name@,
            e.signature_view() == signature@,
    {
        Epik { domain_name, signature }
    }

    /// The domain name this configuration controls.
    pub fn domain_name(&self) -> (r: &String)
        ensures
            r@ == self.domain_name_view(),
    {
        &self.domain_name
    }
}

/// The URL listing or creating the domain's records.
pub open spec fn records_url_text(domain: Seq<char>, signature: Seq<char>) -> Seq<char> {
    "https://usersapiv2.epik.com/v2/domains/"@ + domain + "/records?SIGNATURE="@ + signature
}

/// The URL deleting one record by its opaque id.
pub open spec fn delete_url_text(domain: Seq<char>, signature: Seq<char>, id: Seq<char>) -> Seq<
    char,
> {
    records_url_text(domain, signature) + "&ID="@ + id
}

impl Epik {
    /// The URL for listing and creating this domain's records.
    pub fn records_url(&self) -> (r: String)
        ensures
            r@ == records_url_text(self.domain_name_view(), self.signature_view()),
    {
        let mut s = String::from_str("https://usersapiv2.epik.com/v2/domains/");
        s.append(self.domain_name.as_str());
        s.append("/records?SIGNATURE=");
        s.append(self.signature.as_str());
        proof {
            assert(s@ =~= records_url_text(self.domain_name_view(), self.signature_view()));
        }
        s
    }

    /// The URL for deleting one of this domain's records by id.
    pub fn delete_url(&self, id: &str) -> (r: String)
        ensures
            r@ == delete_url_text(self.domain_name_view(), self.signature_view(), id@),
    {
        let mut s = self.records_url();
        s.append("&ID=");
        s.append(id);
        proof {
            assert(s@ =~= delete_url_text(self.domain_name_view(), self.signature_view(), id@));
        }
        s
    }
}

impl PartialEq for Epik {
    fn eq(&self, other: &Epik) -> (r: bool) {
        self.domain_name == other.domain_name && self.signature == other.signature
    }
}

impl vstd::std_specs::cmp::PartialEqSpecImpl for Epik {
    open spec fn obeys_eq_spec() -> bool {
        true
    }

    open spec fn eq_spec(&self, other: &Epik) -> bool {
        self.domain_name_view() == other.domain_name_view() && self.signature_view()
            == other.signature_view()
    }
}

/// The hexadecimal digit of a value below sixteen.
pub open spec fn hex_digit_char(d: int) -> char {
    if d < 10 {
        crate::ipv4::digit_char(d)
    } else if d == 10 {
        'a'
    } else if d == 11 {
        'b'
    } else if d == 12 {
        'c'
    } else if d == 13 {
        'd'
    } else if d == 14 {
        'e'
    } else {
        'f'
    }
}

/// How one character is written inside a JSON string literal: quotes and
/// backslashes are escaped, the common control characters take their short
/// escapes, the remaining control characters a four-digit escape, and
/// everything else stands for itself.
pub open spec fn json_escaped_char(c: char) -> Seq<char> {
    if c == '"' {
        seq!['\\', '"']
    } else if c == '\\' {
        seq!['\\', '\\']
    } else if c == '\u{08}' {
        seq!['\\', 'b']
    } else if c == '\t' {
        seq!['\\', 't']
    } else if c == '\n' {
        seq!['\\', 'n']
    } else if c == '\u{0c}' {
        seq!['\\', 'f']
    } else if c == '\r' {
        seq!['\\', 'r']
    } else if (c as u32) < 0x20 {
        seq!['\\', 'u', '0', '0', hex_digit_char(c as u32 as int / 16), hex_digit_char(c as u32 as int % 16)]
    } else {
        seq![c]
    }
}

/// How a whole string is written inside a JSON string literal.
pub open spec fn json_escaped(s: Seq<char>) -> Seq<char>
    decreases s.len(),
{
    if s.len() == 0 {
        Seq::<char>::empty()
    } else {
        json_escaped(s.drop_last()) + json_escaped_char(s.last())
    }
}

/// Append one character of a JSON string literal.
fn push_json_escaped_char(out: &mut String, c: char)
    ensures
        final(out)@ == old(out)@ + json_escaped_char(c),
{
    match c {
        '"' => {
            out.append("\\\"");
            proof {
                reveal_strlit("\\\"");
                assert(out@ =~= old(out)@ + json_escaped_char(c));
            }
        },
        '\\' => {
            out.append("\\\\");
            proof {
                reveal_strlit("\\\\");
                assert(out@ =~= old(out)@ + json_escaped_char(c));
            }
        },
        '\u{08}' => {
            out.append("\\b");
            proof {
                reveal_strlit("\\b");
                assert(out@ =~= old(out)@ + json_escaped_char(c));
            }
        },
        '\t' => {
            out.append("\\t");
            proof {
                reveal_strlit("\\t");
                assert(out@ =~= old(out)@ + json_escaped_char(c));
            }
        },
        '\n' => {
            out.append("\\n");
            proof {
                reveal_strlit("\\n");
                assert(out@ =~= old(out)@ + json_escaped_char(c));
            }
        },
        '\u{0c}' => {
            out.append("\\f");
            proof {
                reveal_strlit("\\f");
                assert(out@ =~= old(out)@ + json_escaped_char(c));
            }
        },
        '\r' => {
            out.append("\\r");
            proof {
                reveal_strlit("\\r");
                assert(out@ =~= old(out)@ + json_escaped_char(c));
            }
        },
        _ => {
            let code = c as u32;
            if code < 0x20 {
                out.append("\\u00");
                let hi = (code / 16) as u8;
                let lo = (code % 16) as u8;
                push_hex_digit(out, hi);
                push_hex_digit(out, lo);
                proof {
                    reveal_strlit("\\u00");
                    assert(out@ =~= old(out)@ + json_escaped_char(c));
                }
            } else {
                push_char(out, c);
                proof {
                    assert(out@ =~= old(out)@ + json_escaped_char(c));
                }
            }
        },
    }
}

fn push_hex_digit(out: &mut String, d: u8)
    requires
        d < 16,
    ensures
        final(out)@ == old(out)@.push(hex_digit_char(d as int)),
{
    if d == 0 {
        push_char(out, '0');
    } else if d == 1 {
        push_char(out, '1');
    } else if d == 2 {
        push_char(out, '2');
    } else if d == 3 {
        push_char(out, '3');
    } else if d == 4 {
        push_char(out, '4');
    } else if d == 5 {
        push_char(out, '5');
    } else if d == 6 {
        push_char(out, '6');
    } else if d == 7 {
        push_char(out, '7');
    } else if d == 8 {
        push_char(out, '8');
    } else if d == 9 {
        push_char(out, '9');
    } else if d == 10 {
        push_char(out, 'a');
    } else if d == 11 {
        push_char(out, 'b');
    } else if d == 12 {
        push_char(out, 'c');
    } else if d == 13 {
        push_char(out, 'd');
    } else if d == 14 {
        push_char(out, 'e');
    } else {
        push_char(out, 'f');
    }
}

/// Append a whole string, escaped for a JSON string literal.
fn append_json_escaped(out: &mut String, s: &str)
    ensures
        final(out)@ == old(out)@ + json_escaped(s@),
{
    let len = s.unicode_len();
    let mut i: usize = 0;
    proof {
        assert(s@.take(0) =~= Seq::<char>::empty());
        assert(old(out)@ + json_escaped(s@.take(0)) =~= old(out)@);
    }
    while i < len
        invariant
            len == s@.len(),
            i <= len,
            out@ == old(out)@ + json_escaped(s@.take(i as int)),
        decreases len - i,
    {
        let c = s.get_char(i);
        push_json_escaped_char(out, c);
        proof {
            assert(s@.take(i + 1).drop_last() =~= s@.take(i as int));
            assert(s@.take(i + 1).last() == s@[i as int]);
            assert(out@ =~= old(out)@ + json_escaped(s@.take(i + 1)));
        }
        i += 1;
    }
    proof {
        assert(s@.take(len as int) =~= s@);
    }
}

/// The body of a record-creation request: the payload object, wrapped under
/// the `create_host_records_payload` key the API expects.
pub open spec fn create_record_body_text(
    host: Seq<char>,
    record_type: DnsRecordType,
    data: Seq<char>,
) -> Seq<char> {
    "{ \"create_host_records_payload\": {\"HOST\":\""@ + json_escaped(host)
        + "\",\"TYPE\":\""@ + record_type_text(record_type) + "\",\"DATA\":\""@ + json_escaped(
        data,
    ) + "\",\"AUX\":0,\"TTL\":360} }"@
}

/// Build the record-creation request body.
pub fn create_record_body(host: &str, record_type: DnsRecordType, data: &str) -> (r: String)
    ensures
        r@ == create_record_body_text(host@, record_type, data@),
{
    let mut s = String::from_str("{ \"create_host_records_payload\": {\"HOST\":\"");
    append_json_escaped(&mut s, host);
    s.append("\",\"TYPE\":\"");
    let token = record_type.to_text();
    s.append(token.as_str());
    s.append("\",\"DATA\":\"");
    append_json_escaped(&mut s, data);
    s.append("\",\"AUX\":0,\"TTL\":360} }");
    proof {
        assert(s@ =~= create_record_body_text(host@, record_type, data@));
    }
    s
}

/// One record as the Epik API lists it: the stored fields plus the opaque id
/// that deletion takes.
#[derive(Debug, Clone)]
pub struct EpikDnsEntry {
    pub id: String,
    pub name: String,
    pub record_type: DnsRecordType,
    pub data: String,
    pub aux: u32,
    pub ttl: u32,
}

/// The mathematical model of an `EpikDnsEntry`.
#[verifier::ext_equal]
pub struct EpikDnsEntryModel {
    pub id: Seq<char>,
    pub name: Seq<char>,
    pub record_type: DnsRecordType,
    pub data: Seq<char>,
    pub aux: u32,
    pub ttl: u32,
}

impl View for EpikDnsEntry {
    type V = EpikDnsEntryModel;

    open spec fn view(&self) -> EpikDnsEntryModel {
        EpikDnsEntryModel {
            id: self.id@,
            name: self.name@,
            record_type: self.record_type,
            data: self.data@,
            aux: self.aux,
            ttl: self.ttl,
        }
    }
}

/// The record an Epik entry stands for.
pub open spec fn record_of_entry(e: EpikDnsEntryModel) -> RecordModel {
    RecordModel { name: e.name, record_type: e.record_type, value: e.data }
}

impl DnsRecord {
    /// The record an Epik entry stands for.
    pub fn from_entry(e: EpikDnsEntry) -> (r: DnsRecord)
        ensures
            r@ == record_of_entry(e@),
    {
        DnsRecord { name: e.name, record_type: e.record_type, value: e.data }
    }
}

/// Whether a removal request matches a listed entry.
pub open spec fn entry_removal_match(
    e: EpikDnsEntryModel,
    name: Seq<char>,
    record_type: DnsRecordType,
    value: Option<Seq<char>>,
) -> bool {
    e.name == name && e.record_type == record_type && txt_value_matches(e.data, value)
}

/// The ids of the entries a removal request matches, in listing order: the
/// wire protocol deletes by opaque id, so a removal by value is a
/// list-then-filter-then-delete-by-id round trip.
pub open spec fn removal_targets(
    entries: Seq<EpikDnsEntryModel>,
    name: Seq<char>,
    record_type: DnsRecordType,
    value: Option<Seq<char>>,
) -> Seq<Seq<char>> {
    entries.filter(
        |e: EpikDnsEntryModel| entry_removal_match(e, name, record_type, value),
    ).map_values(|e: EpikDnsEntryModel| e.id)
}

/// Collect the ids of the entries a removal request matches.
pub fn ids_to_remove(
    entries: &Vec<EpikDnsEntry>,
    name: &str,
    record_type: DnsRecordType,
    value: Option<&str>,
) -> (r: Vec<String>)
    ensures
        r@.map_values(|s: String| s@) == removal_targets(
            entries@.map_values(|e: EpikDnsEntry| e@),
            name@,
            record_type,
            opt_view(value),
        ),
{
    let ghost ems = entries@.map_values(|e: EpikDnsEntry| e@);
    let ghost mpred = |e: EpikDnsEntryModel| entry_removal_match(
        e,
        name@,
        record_type,
        opt_view(value),
    );
    let mut out: Vec<String> = Vec::new();
    let mut i: usize = 0;
    proof {
        assert(ems.take(0) =~= Seq::<EpikDnsEntryModel>::empty());
        reveal(Seq::filter);
        assert(out@.map_values(|s: String| s@) =~= ems.take(0).filter(mpred).map_values(
            |e: EpikDnsEntryModel| e.id,
        ));
    }
    while i < entries.len()
        invariant
            i <= entries.len(),
            ems == entries@.map_values(|e: EpikDnsEntry| e@),
            mpred == (|e: EpikDnsEntryModel| entry_removal_match(
                e,
                name@,
                record_type,
                opt_view(value),
            )),
            out@.map_values(|s: String| s@) == ems.take(i as int).filter(mpred).map_values(
                |e: EpikDnsEntryModel| e.id,
            ),
        decreases entries.len() - i,
    {
        let ghost om = out@.map_values(|s: String| s@);
        proof {
            assert(entries@[i as int]@ == ems[i as int]);
            assert(ems.take(i + 1).drop_last() =~= ems.take(i as int));
            assert(ems.take(i + 1) =~= ems.take(i as int).push(ems[i as int]));
            lemma_filter_push(ems.take(i as int), mpred, ems[i as int]);
        }
        let e = &entries[i];
        if str_eq(e.name.as_str(), name) && e.record_type == record_type && compare_dns_txt_value(
            e.data.as_str(),
            value,
        ) {
            let id = e.id.clone();
            out.push(id);
            proof {
                assert(out@.map_values(|s: String| s@) =~= om.push(ems[i as int].id));
                assert(ems.take(i + 1).filter(mpred).map_values(|e2: EpikDnsEntryModel| e2.id)
                    =~= om.push(ems[i as int].id));
            }
        } else {
            proof {
                assert(!mpred(ems[i as int]));
            }
        }
        i += 1;
    }
    proof {
        assert(ems.take(ems.len() as int) =~= ems);
    }
    out
}

/// The error an adapter's pure interpretation raises: the response did not
/// describe the domain the request was about.
#[derive(Debug, Clone, PartialEq, Eq, Structural)]
pub enum Error {
    /// The domain name returned doesn't match the requested domain name.
    DomainNameMismatch,
}

/// The payload of a record-listing response.
#[derive(Debug, Clone)]
pub struct EpikDnsRecordsResponseData {
    pub domain_name: String,
    pub code: u32,
    pub records: Vec<EpikDnsEntry>,
}

/// Interpret a record-listing response: the domain name must match the one
/// requested, and every listed entry becomes a record.
pub fn records_from_response(resp: EpikDnsRecordsResponseData, expected_domain: &String) -> (r:
    Result<Vec<DnsRecord>, Error>)
    ensures
        (r is Ok) == (resp.domain_name@ == expected_domain@),
        r matches Ok(v) ==> v@.map_values(|rec: DnsRecord| rec@) == resp.records@.map_values(
            |e: EpikDnsEntry| record_of_entry(e@),
        ),
{
    if !str_eq(resp.domain_name.as_str(), expected_domain.as_str()) {
        return Err(Error::DomainNameMismatch);
    }
    let ghost ems = resp.records@;
    let mut out: Vec<DnsRecord> = Vec::new();
    let mut records = resp.records;
    while records.len() > 0
        invariant
            out@.len() + records@.len() == ems.len(),
            records@ == ems.skip(out@.len() as int),
            forall|j: int| 0 <= j < out@.len() ==> #[trigger] out@[j]@ == record_of_entry(
                ems[j]@,
            ),
        decreases records.len(),
    {
        let ghost done = out@.len() as int;
        let e = records.remove(0);
        proof {
            assert(e == ems[done]);
            assert(records@ =~= ems.skip(done + 1));
        }
        let rec = DnsRecord::from_entry(e);
        out.push(rec);
    }
    proof {
        assert(out@.map_values(|rec: DnsRecord| rec@) =~= ems.map_values(
            |e: EpikDnsEntry| record_of_entry(e@),
        ));
    }
    Ok(out)
}

} // verus!
