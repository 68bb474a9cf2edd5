//! Resolution of the address the server binds to.
//!
//! Four sources are tried in strict priority order: the command-line
//! flag, the `ADDRESS` environment variable, the address in the
//! configuration file, and finally the built-in default. A source that is
//! present but does not parse as an address falls through to the next;
//! only a successfully parsed value short-circuits the chain.
//!
//! An address is written as a dotted-quad IPv4 host and a decimal port:
//! octets of one to three digits without a leading zero, up to `255`, and
//! a port up to `65535` (leading zeros allowed).

use vstd::prelude::*;
use crate::json::is_digit;
use crate::json::digits_end;
use crate::request::dec_val;

verus! {

/// A resolved IPv4 endpoint.
#[derive(PartialEq, Eq, Structural, Clone, Copy, Debug)]
pub struct Addr {
    pub o1: u8,
    pub o2: u8,
    pub o3: u8,
    pub o4: u8,
    pub port: u16,
}

/// The built-in default, `127.0.0.1:8080`.
pub open spec fn default_addr() -> Addr {
    Addr { o1: 127, o2: 0, o3: 0, o4: 1, port: 8080 }
}

/// One octet starting at `i`: digits without a leading zero, value up to
/// `255`; yields the value and the index after it.
pub open spec fn octet_at(s: Seq<u8>, i: int) -> Option<(int, int)> {
    let e = digits_end(s, i);
    if 0 <= i < e && (s[i] != 0x30 || e == i + 1) && dec_val(s.subrange(i, e)) <= 255 {
        Some((dec_val(s.subrange(i, e)), e))
    } else {
        None
    }
}

/// An address: four octets separated by dots, a colon, and a decimal
/// port running to the end of the text, value up to `65535`.
pub open spec fn spec_parse_addr(s: Seq<u8>) -> Option<Addr> {
    match octet_at(s, 0) {
        None => None,
        Some((v1, e1)) => if 0 <= e1 < s.len() && s[e1] == 0x2e {
            match octet_at(s, e1 + 1) {
                None => None,
                Some((v2, e2)) => if 0 <= e2 < s.len() && s[e2] == 0x2e {
                    match octet_at(s, e2 + 1) {
                        None => None,
                        Some((v3, e3)) => if 0 <= e3 < s.len() && s[e3] == 0x2e {
                            match octet_at(s, e3 + 1) {
                                None => None,
                                Some((v4, e4)) => if 0 <= e4 < s.len() && s[e4] == 0x3a {
                                    let pe = digits_end(s, e4 + 1);
                                    if pe == s.len() && e4 + 1 < pe && dec_val(
                                        s.subrange(e4 + 1, pe),
                                    ) <= 65535 {
                                        Some(
                                            Addr {
                                                o1: v1 as u8,
                                                o2: v2 as u8,
                                                o3: v3 as u8,
                                                o4: v4 as u8,
                                                port: dec_val(s.subrange(e4 + 1, pe)) as u16,
                                            },
                                        )
                                    } else {
                                        None
                                    }
                                } else {
                                    None
                                },
                            }
                        } else {
                            None
                        },
                    }
                } else {
                    None
                },
            }
        } else {
            None
        },
    }
}

/// Reads the value of the digits `s[a..e]`, saturating at one million so
/// that the octet and port bounds can still be decided exactly.
fn range_val(s: &Vec<u8>, a: usize, e: usize) -> (r: u32)
    requires
        a <= e <= s.len(),
        forall|q: int| a <= q < e ==> is_digit(s@[q]),
    ensures
        (r as int == dec_val(s@.subrange(a as int, e as int)) && r <= 999999) || (r == 1000000
            && dec_val(s@.subrange(a as int, e as int)) >= 1000000),
{
    let mut k = a;
    let mut acc: u32 = 0;
    while k < e
        invariant
            a <= k <= e <= s.len(),
            forall|q: int| a <= q < e ==> is_digit(s@[q]),
            (acc as int == dec_val(s@.subrange(a as int, k as int)) && acc <= 999999) || (acc
                == 1000000 && dec_val(s@.subrange(a as int, k as int)) >= 1000000),
        decreases e - k,
    {
        proof {
            assert(s@.subrange(a as int, k as int + 1).drop_last() =~= s@.subrange(
                a as int,
                k as int,
            ));
            assert(s@.subrange(a as int, k as int + 1).last() == s@[k as int]);
        }
        let d = (s[k] - 0x30) as u32;
        if acc >= 1000000 {
            acc = 1000000;
        } else {
            acc = acc * 10 + d;
            if acc > 999999 {
                acc = 1000000;
            }
        }
        k = k + 1;
    }
    acc
}

/// Scans one octet; the executable twin of `octet_at`.
fn scan_octet(s: &Vec<u8>, i: usize) -> (r: Option<(u8, usize)>)
    requires
        i <= s.len(),
    ensures
        match octet_at(s@, i as int) {
            Some(p) => r is Some && r.unwrap().0 as int == p.0 && r.unwrap().1 as int == p.1
                && i < r.unwrap().1 <= s.len(),
            None => r is None,
        },
{
    let mut e = i;
    while e < s.len() && 0x30 <= s[e] && s[e] <= 0x39
        invariant
            i <= e <= s.len(),
            digits_end(s@, i as int) == digits_end(s@, e as int),
            forall|q: int| i <= q < e ==> is_digit(s@[q]),
        decreases s.len() - e,
    {
        e = e + 1;
    }
    if e == i {
        return None;
    }
    if s[i] == 0x30 && e != i + 1 {
        return None;
    }
    let v = range_val(s, i, e);
    if v <= 255 {
        Some((v as u8, e))
    } else {
        None
    }
}

/// Parses an address; the executable twin of `spec_parse_addr`.
pub fn parse_addr(s: &Vec<u8>) -> (r: Option<Addr>)
    ensures
        r == spec_parse_addr(s@),
{
    let o1 = match scan_octet(s, 0) {
        None => {
            return None;
        },
        Some(p) => p,
    };
    if !(o1.1 < s.len() && s[o1.1] == 0x2e) {
        return None;
    }
    let o2 = match scan_octet(s, o1.1 + 1) {
        None => {
            return None;
        },
        Some(p) => p,
    };
    if !(o2.1 < s.len() && s[o2.1] == 0x2e) {
        return None;
    }
    let o3 = match scan_octet(s, o2.1 + 1) {
        None => {
            return None;
        },
        Some(p) => p,
    };
    if !(o3.1 < s.len() && s[o3.1] == 0x2e) {
        return None;
    }
    let o4 = match scan_octet(s, o3.1 + 1) {
        None => {
            return None;
        },
        Some(p) => p,
    };
    if !(o4.1 < s.len() && s[o4.1] == 0x3a) {
        return None;
    }
    let ps = o4.1 + 1;
    let mut pe = ps;
    while pe < s.len() && 0x30 <= s[pe] && s[pe] <= 0x39
        invariant
            ps <= pe <= s.len(),
            digits_end(s@, ps as int) == digits_end(s@, pe as int),
            forall|q: int| ps <= q < pe ==> is_digit(s@[q]),
        decreases s.len() - pe,
    {
        pe = pe + 1;
    }
    if !(pe == s.len() && ps < pe) {
        return None;
    }
    let pv = range_val(s, ps, pe);
    if pv <= 65535 {
        Some(
            Addr {
                o1: o1.0,
                o2: o2.0,
                o3: o3.0,
                o4: o4.0,
                port: pv as u16,
            },
        )
    } else {
        None
    }
}

/// The view of an optional byte string.
pub open spec fn view_opt(o: Option<Vec<u8>>) -> Option<Seq<u8>> {
    match o {
        Some(v) => Some(v@),
        None => None,
    }
}

/// The effective address for the given candidate sources: the first that
/// parses, in priority order, else the default.
pub open spec fn spec_resolve(
    f: Option<Seq<u8>>,
    e: Option<Seq<u8>>,
    c: Option<Seq<u8>>,
) -> Addr {
    if f is Some && spec_parse_addr(f.unwrap()) is Some {
        spec_parse_addr(f.unwrap()).unwrap()
    } else if e is Some && spec_parse_addr(e.unwrap()) is Some {
        spec_parse_addr(e.unwrap()).unwrap()
    } else if c is Some && spec_parse_addr(c.unwrap()) is Some {
        spec_parse_addr(c.unwrap()).unwrap()
    } else {
        default_addr()
    }
}

/// Resolves the bind address from the command-line flag, the environment
/// variable and the configuration file, in that order, falling back to
/// `127.0.0.1:8080`.
pub fn resolve_address(
    flag: Option<Vec<u8>>,
    env_var: Option<Vec<u8>>,
    file_cfg: Option<Vec<u8>>,
) -> (r: Addr)
    ensures
        r == spec_resolve(view_opt(flag), view_opt(env_var), view_opt(file_cfg)),
{
    if let Some(v) = &flag {
        if let Some(a) = parse_addr(v) {
            return a;
        }
    }
    if let Some(v) = &env_var {
        if let Some(a) = parse_addr(v) {
            return a;
        }
    }
    if let Some(v) = &file_cfg {
        if let Some(a) = parse_addr(v) {
            return a;
        }
    }
    Addr { o1: 127, o2: 0, o3: 0, o4: 1, port: 8080 }
}

} // verus!
