//! IPv4 addresses as plain values, with verified parsing from and
//! formatting to the canonical dotted-quad text: four decimal octets
//! without leading zeros, separated by dots.

use vstd::prelude::*;

verus! {

/// An IPv4 address: four octets.
#[derive(Debug, Clone, Copy, PartialEq, Eq, Structural)]
pub struct Ipv4Address {
    pub o0: u8,
    pub o1: u8,
    pub o2: u8,
    pub o3: u8,
}

/// Whether a character is a decimal digit.
pub open spec fn is_digit_char(c: char) -> bool {
    c == '0' || c == '1' || c == '2' || c == '3' || c == '4' || c == '5' || c == '6' || c == '7'
        || c == '8' || c == '9'
}

/// The digit character of a value below ten.
pub open spec fn digit_char(d: int) -> char {
    if d == 0 {
        '0'
    } else if d == 1 {
        '1'
    } else if d == 2 {
        '2'
    } else if d == 3 {
        '3'
    } else if d == 4 {
        '4'
    } else if d == 5 {
        '5'
    } else if d == 6 {
        '6'
    } else if d == 7 {
        '7'
    } else if d == 8 {
        '8'
    } else {
        '9'
    }
}

/// The value of a digit character; ten for anything else.
pub open spec fn digit_val(c: char) -> int {
    match c {
        '0' => 0,
        '1' => 1,
        '2' => 2,
        '3' => 3,
        '4' => 4,
        '5' => 5,
        '6' => 6,
        '7' => 7,
        '8' => 8,
        '9' => 9,
        _ => 10,
    }
}

/// The decimal text of an octet, without leading zeros.
pub open spec fn dec_text(n: u8) -> Seq<char> {
    if n < 10 {
        seq![digit_char(n as int)]
    } else if n < 100 {
        seq![digit_char(n as int / 10), digit_char(n as int % 10)]
    } else {
        seq![
            digit_char(n as int / 100),
            digit_char((n as int / 10) % 10),
            digit_char(n as int % 10),
        ]
    }
}

/// The canonical dotted-quad text of an address.
pub open spec fn ipv4_text(ip: Ipv4Address) -> Seq<char> {
    dec_text(ip.o0) + seq!['.'] + dec_text(ip.o1) + seq!['.'] + dec_text(ip.o2) + seq!['.']
        + dec_text(ip.o3)
}

/// The value of a digit sequence of length one to three.
pub open spec fn octet_value(p: Seq<char>) -> int {
    if p.len() == 1 {
        digit_val(p[0])
    } else if p.len() == 2 {
        10 * digit_val(p[0]) + digit_val(p[1])
    } else if p.len() == 3 {
        100 * digit_val(p[0]) + 10 * digit_val(p[1]) + digit_val(p[2])
    } else {
        256
    }
}

/// Whether a piece of text is a valid octet: one to three digits, no leading
/// zero, value at most 255.
pub open spec fn is_octet_text(p: Seq<char>) -> bool {
    &&& 1 <= p.len() <= 3
    &&& forall|i: int| 0 <= i < p.len() ==> is_digit_char(#[trigger] p[i])
    &&& p.len() > 1 ==> p[0] != '0'
    &&& octet_value(p) <= 255
}

/// Whether `i < j < k` are the positions of the exactly three dots of a
/// dotted quad whose four segments are valid octets.
pub open spec fn is_dotted_quad(s: Seq<char>, i: int, j: int, k: int) -> bool {
    &&& 0 <= i < j < k < s.len()
    &&& s[i] == '.' && s[j] == '.' && s[k] == '.'
    &&& forall|t: int| 0 <= t < s.len() && #[trigger] s[t] == '.' ==> t == i || t == j || t == k
    &&& is_octet_text(s.subrange(0, i))
    &&& is_octet_text(s.subrange(i + 1, j))
    &&& is_octet_text(s.subrange(j + 1, k))
    &&& is_octet_text(s.subrange(k + 1, s.len() as int))
}

/// The address a dotted quad denotes.
pub open spec fn quad_address(s: Seq<char>, i: int, j: int, k: int) -> Ipv4Address {
    Ipv4Address {
        o0: octet_value(s.subrange(0, i)) as u8,
        o1: octet_value(s.subrange(i + 1, j)) as u8,
        o2: octet_value(s.subrange(j + 1, k)) as u8,
        o3: octet_value(s.subrange(k + 1, s.len() as int)) as u8,
    }
}

/// Parsing a piece of text as an IPv4 address: defined exactly on dotted
/// quads.
pub open spec fn ipv4_parse(s: Seq<char>) -> Option<Ipv4Address> {
    if exists|i: int, j: int, k: int| is_dotted_quad(s, i, j, k) {
        let (i, j, k): (int, int, int) = choose|i: int, j: int, k: int| is_dotted_quad(s, i, j, k);
        Some(quad_address(s, i, j, k))
    } else {
        None
    }
}

/// A piece of text has at most one decomposition as a dotted quad.
pub proof fn lemma_dotted_quad_unique(s: Seq<char>, i1: int, j1: int, k1: int, i2: int, j2: int, k2: int)
    requires
        is_dotted_quad(s, i1, j1, k1),
        is_dotted_quad(s, i2, j2, k2),
    ensures
        i1 == i2 && j1 == j2 && k1 == k2,
{
    assert(i2 == i1 || i2 == j1 || i2 == k1);
    assert(j2 == i1 || j2 == j1 || j2 == k1);
    assert(k2 == i1 || k2 == j1 || k2 == k1);
    assert(i1 == i2 || i1 == j2 || i1 == k2);
    assert(j1 == i2 || j1 == j2 || j1 == k2);
    assert(k1 == i2 || k1 == j2 || k1 == k2);
}

/// The decimal text of an octet is a valid octet text and denotes the octet.
pub proof fn lemma_dec_text_valid(n: u8)
    ensures
        is_octet_text(dec_text(n)),
        octet_value(dec_text(n)) == n,
        forall|i: int| 0 <= i < dec_text(n).len() ==> is_digit_char(#[trigger] dec_text(n)[i]),
        forall|i: int| 0 <= i < dec_text(n).len() ==> #[trigger] dec_text(n)[i] != '.',
{
    let p = dec_text(n);
    if n < 10 {
        assert(p =~= seq![digit_char(n as int)]);
    } else if n < 100 {
        assert(n as int / 10 >= 1);
    } else {
        assert(n as int / 100 >= 1);
    }
}

/// A valid octet text is the decimal text of its value.
pub proof fn lemma_octet_text_canonical(p: Seq<char>)
    requires
        is_octet_text(p),
    ensures
        0 <= octet_value(p) <= 255,
        dec_text(octet_value(p) as u8) == p,
{
    let v = octet_value(p);
    if p.len() == 1 {
        assert(is_digit_char(p[0]));
        assert(v == digit_val(p[0]));
        assert(dec_text(v as u8) =~= p);
    } else if p.len() == 2 {
        assert(is_digit_char(p[0]) && is_digit_char(p[1]));
        let d0 = digit_val(p[0]);
        let d1 = digit_val(p[1]);
        assert(p[0] != '0');
        assert(d0 >= 1);
        assert(v == 10 * d0 + d1);
        assert(v / 10 == d0 && v % 10 == d1);
        assert(dec_text(v as u8) =~= p);
    } else {
        assert(is_digit_char(p[0]) && is_digit_char(p[1]) && is_digit_char(p[2]));
        let d0 = digit_val(p[0]);
        let d1 = digit_val(p[1]);
        let d2 = digit_val(p[2]);
        assert(d0 >= 1);
        assert(v == 100 * d0 + 10 * d1 + d2);
        assert(v / 100 == d0 && (v / 10) % 10 == d1 && v % 10 == d2);
        assert(dec_text(v as u8) =~= p);
    }
}

/// The canonical text of an address is a dotted quad, with the dots exactly
/// at the boundaries the octet texts dictate.
pub proof fn lemma_text_is_quad(ip: Ipv4Address)
    ensures
        ({
            let l0 = dec_text(ip.o0).len() as int;
            let l1 = dec_text(ip.o1).len() as int;
            let l2 = dec_text(ip.o2).len() as int;
            is_dotted_quad(ipv4_text(ip), l0, l0 + 1 + l1, l0 + 1 + l1 + 1 + l2)
        }),
{
    let s = ipv4_text(ip);
    let p0 = dec_text(ip.o0);
    let p1 = dec_text(ip.o1);
    let p2 = dec_text(ip.o2);
    let p3 = dec_text(ip.o3);
    let i = p0.len() as int;
    let j = i + 1 + p1.len() as int;
    let k = j + 1 + p2.len() as int;
    lemma_dec_text_valid(ip.o0);
    lemma_dec_text_valid(ip.o1);
    lemma_dec_text_valid(ip.o2);
    lemma_dec_text_valid(ip.o3);
    assert(s.len() == k + 1 + p3.len());
    assert(s.subrange(0, i) =~= p0);
    assert(s.subrange(i + 1, j) =~= p1);
    assert(s.subrange(j + 1, k) =~= p2);
    assert(s.subrange(k + 1, s.len() as int) =~= p3);
    assert(s[i] == '.' && s[j] == '.' && s[k] == '.');
    assert forall|t: int| 0 <= t < s.len() && #[trigger] s[t] == '.' implies t == i || t == j || t
        == k by {
        if t < i {
            assert(s[t] == p0[t]);
        } else if i < t < j {
            assert(s[t] == p1[t - i - 1]);
        } else if j < t < k {
            assert(s[t] == p2[t - j - 1]);
        } else if k < t {
            assert(s[t] == p3[t - k - 1]);
        }
    }
}

/// Round trip: the canonical text of an address parses back to it.
pub proof fn lemma_ipv4_round_trip(ip: Ipv4Address)
    ensures
        ipv4_parse(ipv4_text(ip)) == Some(ip),
{
    let s = ipv4_text(ip);
    let l0 = dec_text(ip.o0).len() as int;
    let l1 = dec_text(ip.o1).len() as int;
    let l2 = dec_text(ip.o2).len() as int;
    let i = l0;
    let j = l0 + 1 + l1;
    let k = l0 + 1 + l1 + 1 + l2;
    lemma_text_is_quad(ip);
    assert(is_dotted_quad(s, i, j, k));
    let (ci, cj, ck): (int, int, int) = choose|ci: int, cj: int, ck: int|
        is_dotted_quad(s, ci, cj, ck);
    lemma_dotted_quad_unique(s, i, j, k, ci, cj, ck);
    lemma_dec_text_valid(ip.o0);
    lemma_dec_text_valid(ip.o1);
    lemma_dec_text_valid(ip.o2);
    lemma_dec_text_valid(ip.o3);
    assert(s.subrange(0, i) =~= dec_text(ip.o0));
    assert(s.subrange(i + 1, j) =~= dec_text(ip.o1));
    assert(s.subrange(j + 1, k) =~= dec_text(ip.o2));
    assert(s.subrange(k + 1, s.len() as int) =~= dec_text(ip.o3));
    assert(quad_address(s, i, j, k) == ip);
}

/// What parses successfully is exactly the canonical text of the parsed
/// address: parsing accepts no other spelling.
pub proof fn lemma_ipv4_parse_canonical(s: Seq<char>, ip: Ipv4Address)
    requires
        ipv4_parse(s) == Some(ip),
    ensures
        s == ipv4_text(ip),
{
    let (i, j, k): (int, int, int) = choose|i: int, j: int, k: int| is_dotted_quad(s, i, j, k);
    assert(is_dotted_quad(s, i, j, k));
    let p0 = s.subrange(0, i);
    let p1 = s.subrange(i + 1, j);
    let p2 = s.subrange(j + 1, k);
    let p3 = s.subrange(k + 1, s.len() as int);
    lemma_octet_text_canonical(p0);
    lemma_octet_text_canonical(p1);
    lemma_octet_text_canonical(p2);
    lemma_octet_text_canonical(p3);
    assert(ip == quad_address(s, i, j, k));
    assert(dec_text(ip.o0) == p0);
    assert(dec_text(ip.o1) == p1);
    assert(dec_text(ip.o2) == p2);
    assert(dec_text(ip.o3) == p3);
    assert(ipv4_text(ip) =~= s);
}

fn push_digit(s: &mut String, d: u8)
    requires
        d <= 9,
    ensures
        final(s)@ == old(s)@.push(digit_char(d as int)),
{
    if d == 0 {
        crate::strings::push_char(s, '0');
    } else if d == 1 {
        crate::strings::push_char(s, '1');
    } else if d == 2 {
        crate::strings::push_char(s, '2');
    } else if d == 3 {
        crate::strings::push_char(s, '3');
    } else if d == 4 {
        crate::strings::push_char(s, '4');
    } else if d == 5 {
        crate::strings::push_char(s, '5');
    } else if d == 6 {
        crate::strings::push_char(s, '6');
    } else if d == 7 {
        crate::strings::push_char(s, '7');
    } else if d == 8 {
        crate::strings::push_char(s, '8');
    } else {
        crate::strings::push_char(s, '9');
    }
}

fn append_octet(s: &mut String, n: u8)
    ensures
        final(s)@ == old(s)@ + dec_text(n),
{
    if n < 10 {
        push_digit(s, n);
        proof {
            assert(s@ =~= old(s)@ + dec_text(n));
        }
    } else if n < 100 {
        push_digit(s, n / 10);
        push_digit(s, n % 10);
        proof {
            assert(s@ =~= old(s)@ + dec_text(n));
        }
    } else {
        push_digit(s, n / 100);
        push_digit(s, (n / 10) % 10);
        push_digit(s, n % 10);
        proof {
            assert(s@ =~= old(s)@ + dec_text(n));
        }
    }
}

impl Ipv4Address {
    /// The canonical dotted-quad text of the address.
    pub fn to_text(&self) -> (r: String)
        ensures
            r@ == ipv4_text(*self),
    {
        let mut out = String::new();
        append_octet(&mut out, self.o0);
        crate::strings::push_char(&mut out, '.');
        append_octet(&mut out, self.o1);
        crate::strings::push_char(&mut out, '.');
        append_octet(&mut out, self.o2);
        crate::strings::push_char(&mut out, '.');
        append_octet(&mut out, self.o3);
        proof {
            assert(out@ =~= ipv4_text(*self));
        }
        out
    }
}

/// The executable digit test and value.
fn char_digit(c: char) -> (r: Option<u8>)
    ensures
        (r is Some) == is_digit_char(c),
        r matches Some(d) ==> d == digit_val(c) && d <= 9,
{
    match c {
        '0' => Some(0),
        '1' => Some(1),
        '2' => Some(2),
        '3' => Some(3),
        '4' => Some(4),
        '5' => Some(5),
        '6' => Some(6),
        '7' => Some(7),
        '8' => Some(8),
        '9' => Some(9),
        _ => None,
    }
}

/// Parse the segment `s[from..to]` as one octet.
fn parse_octet(s: &str, from: usize, to: usize) -> (r: Option<u8>)
    requires
        from <= to <= s@.len(),
    ensures
        (r is Some) == is_octet_text(s@.subrange(from as int, to as int)),
        r matches Some(v) ==> v == octet_value(s@.subrange(from as int, to as int)),
{
    let ghost p = s@.subrange(from as int, to as int);
    let seg_len = to - from;
    if seg_len < 1 || seg_len > 3 {
        return None;
    }
    if seg_len == 1 {
        let d0 = match char_digit(s.get_char(from)) {
            Some(d) => d,
            None => {
                proof {
                    assert(!is_digit_char(p[0]));
                }
                return None;
            },
        };
        proof {
            assert(forall|t: int| 0 <= t < p.len() ==> is_digit_char(#[trigger] p[t]));
        }
        Some(d0)
    } else if seg_len == 2 {
        let c0 = s.get_char(from);
        let d0 = match char_digit(c0) {
            Some(d) => d,
            None => {
                proof {
                    assert(!is_digit_char(p[0]));
                }
                return None;
            },
        };
        let d1 = match char_digit(s.get_char(from + 1)) {
            Some(d) => d,
            None => {
                proof {
                    assert(!is_digit_char(p[1]));
                }
                return None;
            },
        };
        if c0 == '0' {
            proof {
                assert(p[0] == '0');
            }
            return None;
        }
        proof {
            assert forall|t: int| 0 <= t < p.len() implies is_digit_char(#[trigger] p[t]) by {
                if t == 0 {
                } else {
                    assert(t == 1);
                }
            }
        }
        Some(10 * d0 + d1)
    } else {
        let c0 = s.get_char(from);
        let d0 = match char_digit(c0) {
            Some(d) => d,
            None => {
                proof {
                    assert(!is_digit_char(p[0]));
                }
                return None;
            },
        };
        let d1 = match char_digit(s.get_char(from + 1)) {
            Some(d) => d,
            None => {
                proof {
                    assert(!is_digit_char(p[1]));
                }
                return None;
            },
        };
        let d2 = match char_digit(s.get_char(from + 2)) {
            Some(d) => d,
            None => {
                proof {
                    assert(!is_digit_char(p[2]));
                }
                return None;
            },
        };
        if c0 == '0' {
            proof {
                assert(p[0] == '0');
            }
            return None;
        }
        let v: u32 = 100 * (d0 as u32) + 10 * (d1 as u32) + (d2 as u32);
        if v > 255 {
            proof {
                assert(octet_value(p) > 255);
            }
            return None;
        }
        proof {
            assert forall|t: int| 0 <= t < p.len() implies is_digit_char(#[trigger] p[t]) by {
                if t == 0 {
                } else if t == 1 {
                } else {
                    assert(t == 2);
                }
            }
        }
        Some(v as u8)
    }
}

/// Parse a string as an IPv4 address in canonical dotted-quad form.
pub fn parse_ipv4(s: &str) -> (r: Option<Ipv4Address>)
    ensures
        r == ipv4_parse(s@),
{
    let len = s.unicode_len();
    let mut dots: Vec<usize> = Vec::new();
    let mut pos: usize = 0;
    while pos < len
        invariant
            len == s@.len(),
            pos <= len,
            forall|d: int| 0 <= d < dots@.len() ==> #[trigger] dots@[d] < pos,
            forall|d: int| 0 <= d < dots@.len() ==> s@[#[trigger] dots@[d] as int] == '.',
            forall|d1: int, d2: int| 0 <= d1 < d2 < dots@.len() ==> dots@[d1] < dots@[d2],
            forall|t: int|
                0 <= t < pos && s@[t] == '.' ==> exists|d: int|
                    0 <= d < dots@.len() && #[trigger] dots@[d] == t,
        decreases len - pos,
    {
        let ghost old_dots = dots@;
        if s.get_char(pos) == '.' {
            dots.push(pos);
        }
        proof {
            assert forall|t: int| 0 <= t < pos + 1 && s@[t] == '.' implies exists|d: int|
                0 <= d < dots@.len() && #[trigger] dots@[d] == t by {
                if t == pos {
                    assert(dots@[dots@.len() - 1] == pos);
                } else {
                    let d = choose|d: int| 0 <= d < old_dots.len() && #[trigger] old_dots[d] == t;
                    assert(dots@[d] == t);
                }
            }
        }
        pos += 1;
    }
    if dots.len() != 3 {
        proof {
            if exists|i: int, j: int, k: int| is_dotted_quad(s@, i, j, k) {
                let (i, j, k): (int, int, int) = choose|i: int, j: int, k: int|
                    is_dotted_quad(s@, i, j, k);
                assert(s@[i] == '.');
                assert(s@[j] == '.');
                assert(s@[k] == '.');
                let di = choose|d: int| 0 <= d < dots@.len() && dots@[d] == i;
                let dj = choose|d: int| 0 <= d < dots@.len() && dots@[d] == j;
                let dk = choose|d: int| 0 <= d < dots@.len() && dots@[d] == k;
                assert(di != dj && dj != dk && di != dk);
                if dots@.len() > 3 {
                    assert(s@[dots@[0] as int] == '.');
                    assert(s@[dots@[1] as int] == '.');
                    assert(s@[dots@[2] as int] == '.');
                    assert(s@[dots@[3] as int] == '.');
                    assert(dots@[0] < dots@[1] < dots@[2] < dots@[3]);
                    assert(false);
                } else {
                    assert(dots@.len() < 3);
                    assert(false);
                }
            }
        }
        return None;
    }
    let i = dots[0];
    let j = dots[1];
    let k = dots[2];
    proof {
        assert(dots@[0] < dots@[1] < dots@[2]);
    }
    let ghost quad_exists = exists|a: int, b: int, c: int| is_dotted_quad(s@, a, b, c);
    proof {
        if quad_exists {
            let (a, b, c): (int, int, int) = choose|a: int, b: int, c: int|
                is_dotted_quad(s@, a, b, c);
            assert(s@[a] == '.' && s@[b] == '.' && s@[c] == '.');
            let da = choose|d: int| 0 <= d < dots@.len() && dots@[d] == a;
            let db = choose|d: int| 0 <= d < dots@.len() && dots@[d] == b;
            let dc = choose|d: int| 0 <= d < dots@.len() && dots@[d] == c;
            assert(da != db && db != dc && da != dc);
            assert(da == 0 || da == 1 || da == 2);
            assert(db == 0 || db == 1 || db == 2);
            assert(dc == 0 || dc == 1 || dc == 2);
            assert(a == i as int && b == j as int && c == k as int);
        }
    }
    let o0 = match parse_octet(s, 0, i) {
        Some(v) => v,
        None => {
            proof {
                if quad_exists {
                    assert(false);
                }
            }
            return None;
        },
    };
    let o1 = match parse_octet(s, i + 1, j) {
        Some(v) => v,
        None => {
            proof {
                if quad_exists {
                    assert(false);
                }
            }
            return None;
        },
    };
    let o2 = match parse_octet(s, j + 1, k) {
        Some(v) => v,
        None => {
            proof {
                if quad_exists {
                    assert(false);
                }
            }
            return None;
        },
    };
    let o3 = match parse_octet(s, k + 1, len) {
        Some(v) => v,
        None => {
            proof {
                if quad_exists {
                    assert(false);
                }
            }
            return None;
        },
    };
    let result = Ipv4Address { o0, o1, o2, o3 };
    proof {
        assert(is_dotted_quad(s@, i as int, j as int, k as int)) by {
            assert forall|t: int| 0 <= t < s@.len() && #[trigger] s@[t] == '.' implies t
                == i as int || t == j as int || t == k as int by {
                let d = choose|d: int| 0 <= d < dots@.len() && dots@[d] == t;
                assert(d == 0 || d == 1 || d == 2);
            }
        }
        let (a, b, c): (int, int, int) = choose|a: int, b: int, c: int|
            is_dotted_quad(s@, a, b, c);
        lemma_dotted_quad_unique(s@, i as int, j as int, k as int, a, b, c);
        assert(ipv4_parse(s@) == Some(quad_address(s@, i as int, j as int, k as int)));
        assert(quad_address(s@, i as int, j as int, k as int) == result);
    }
    Some(result)
}

} // verus!
