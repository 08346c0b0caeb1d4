//! Dynamic-IP discovery: a fixed list of public IP-echo services, shuffled
//! to spread load, queried one at a time until the first response that is a
//! valid IPv4 address.
//!
//! The querying itself is plain HTTP and lives with the caller; this module
//! owns the order, the progress, and the interpretation of each response.

use vstd::prelude::*;

use rand::seq::SliceRandom;

use crate::ipv4::{ipv4_parse, parse_ipv4, Ipv4Address};
use crate::strings::{trim_spec, trimmed};

verus! {

/// The public IP-echo services discovery may query.
pub fn ip_echo_endpoints() -> (r: Vec<String>)
    ensures
        r@.len() == 9,
        r@[0]@ == "https://api.ipify.org"@,
        r@[1]@ == "https://checkip.amazonaws.com"@,
        r@[2]@ == "https://ipinfo.io/ip"@,
        r@[3]@ == "https://ifconfig.me/ip"@,
        r@[4]@ == "https://icanhazip.com"@,
        r@[5]@ == "https://ipecho.net/plain"@,
        r@[6]@ == "https://myexternalip.com/raw"@,
        r@[7]@ == "https://ident.me/"@,
        r@[8]@ == "https://ip.tyk.nu/"@,
{
    let mut v: Vec<String> = Vec::new();
    v.push(String::from_str("https://api.ipify.org"));
    v.push(String::from_str("https://checkip.amazonaws.com"));
    v.push(String::from_str("https://ipinfo.io/ip"));
    v.push(String::from_str("https://ifconfig.me/ip"));
    v.push(String::from_str("https://icanhazip.com"));
    v.push(String::from_str("https://ipecho.net/plain"));
    v.push(String::from_str("https://myexternalip.com/raw"));
    v.push(String::from_str("https://ident.me/"));
    v.push(String::from_str("https://ip.tyk.nu/"));
    v
}

/// Relies on rand's `SliceRandom::shuffle`: it permutes the slice in place,
/// so the elements are preserved as a multiset, in an order that depends on
/// the thread's random generator.
#[verifier::external_body]
pub fn shuffle_endpoints(v: &mut Vec<String>)
    ensures
        final(v)@.to_multiset() == old(v)@.to_multiset(),
        final(v)@.map_values(|e: String| e@).to_multiset() == old(v)@.map_values(
            |e: String| e@,
        ).to_multiset(),
        final(v)@.len() == old(v)@.len(),
{
    v.as_mut_slice().shuffle(&mut rand::rng());
}

/// Interpret one IP-echo response body: trimmed of whitespace, it must be a
/// canonical dotted-quad IPv4 address.
pub fn ip_from_response_body(body: &str) -> (r: Option<Ipv4Address>)
    ensures
        r == ipv4_parse(trim_spec(body@)),
{
    let t = trimmed(body);
    parse_ipv4(t)
}

/// What a response body looks like at the specification level.
pub open spec fn body_view(body: Option<&str>) -> Option<Seq<char>> {
    match body {
        Option::None => Option::None,
        Option::Some(b) => Option::Some(b@),
    }
}

/// The discovery run: the endpoints in query order, and how many have been
/// tried and failed so far.
pub struct IpDiscovery {
    endpoints: Vec<String>,
    next: usize,
}

impl IpDiscovery {
    /// The endpoints in query order.
    pub closed spec fn endpoints_view(&self) -> Seq<Seq<char>> {
        self.endpoints@.map_values(|e: String| e@)
    }

    /// How many endpoints have been tried and failed.
    pub closed spec fn tried(&self) -> int {
        self.next as int
    }

    /// A run over the given endpoints, shuffled to spread the load.
    pub fn new(endpoints: Vec<String>) -> (r: IpDiscovery)
        ensures
            r.endpoints_view().to_multiset() == endpoints@.map_values(
                |e: String| e@,
            ).to_multiset(),
            r.endpoints_view().len() == endpoints@.len(),
            r.tried() == 0,
    {
        let mut endpoints = endpoints;
        shuffle_endpoints(&mut endpoints);
        IpDiscovery { endpoints, next: 0 }
    }

    /// A run over the given endpoints in exactly the given order.
    pub fn new_in_order(endpoints: Vec<String>) -> (r: IpDiscovery)
        ensures
            r.endpoints_view() == endpoints@.map_values(|e: String| e@),
            r.tried() == 0,
    {
        IpDiscovery { endpoints, next: 0 }
    }

    /// The endpoint to query next, or nothing when every endpoint has failed.
    pub fn current_endpoint(&self) -> (r: Option<&String>)
        ensures
            r matches Some(u) ==> 0 <= self.tried() < self.endpoints_view().len() && u@
                == self.endpoints_view()[self.tried()],
            r is None ==> self.tried() >= self.endpoints_view().len(),
    {
        if self.next < self.endpoints.len() {
            Some(&self.endpoints[self.next])
        } else {
            None
        }
    }

    /// Record the outcome of querying the current endpoint: `None` for a
    /// transport or status failure, `Some(body)` for a successful response.
    /// Returns the discovered address on the first body that is a valid
    /// IPv4 address; any other outcome is that endpoint's failure, and the
    /// run moves on to the next one.
    pub fn record_response(&mut self, body: Option<&str>) -> (r: Option<Ipv4Address>)
        requires
            old(self).tried() < old(self).endpoints_view().len(),
        ensures
            final(self).endpoints_view() == old(self).endpoints_view(),
            ({
                let parsed = match body_view(body) {
                    Option::None => Option::<Ipv4Address>::None,
                    Option::Some(b) => ipv4_parse(trim_spec(b)),
                };
                match parsed {
                    Option::Some(ip) => r == Some(ip) && final(self).tried() == old(self).tried(),
                    Option::None => r is None && final(self).tried() == old(self).tried() + 1,
                }
            }),
    {
        proof {
            assert(self.next < self.endpoints.len());
        }
        match body {
            Some(b) => {
                match ip_from_response_body(b) {
                    Some(ip) => Some(ip),
                    None => {
                        self.next = self.next + 1;
                        None
                    },
                }
            },
            None => {
                self.next = self.next + 1;
                None
            },
        }
    }
}

} // verus!
