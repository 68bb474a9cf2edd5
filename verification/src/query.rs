//! Extraction of the `format` key from a URL query string.
//!
//! The query is read as `&`-separated segments of `key=value` pairs, with
//! `%XX` escapes and `+` for space decoded on both sides; a segment
//! without `=` counts as a key with an empty value, and a malformed `%`
//! escape stands for itself. The first `format` key wins; when none is
//! there, the format defaults to `json`.

use vstd::prelude::*;
use crate::json::hex_val;
use crate::json::clip;
use crate::respond::json_fmt;
use crate::respond::json_fmt_x;

verus! {

/// The bytes of ``format``.
pub open spec fn format_key() -> Seq<u8> {
    seq![0x66u8, 0x6fu8, 0x72u8, 0x6du8, 0x61u8, 0x74u8]
}

/// Builds the bytes of ``format``.
pub fn format_key_x() -> (r: Vec<u8>)
    ensures
        r@ == format_key(),
{
    let v: Vec<u8> = vec![0x66u8, 0x6fu8, 0x72u8, 0x6du8, 0x61u8, 0x74u8];
    proof {
        assert(v@ =~= format_key());
    }
    v
}

/// The position of the next `&` at or after `i`, or the end.
pub open spec fn amp_end(q: Seq<u8>, i: int) -> int
    decreases q.len() - i,
{
    if 0 <= i < q.len() && q[i] != 0x26 {
        amp_end(q, i + 1)
    } else {
        i
    }
}

/// The position of the first `=` in `[i, e)`, if any.
pub open spec fn eq_pos(q: Seq<u8>, i: int, e: int) -> Option<int>
    decreases e - i,
{
    if !(0 <= i < q.len() && i < e) {
        None
    } else if q[i] == 0x3d {
        Some(i)
    } else {
        eq_pos(q, i + 1, e)
    }
}

/// Percent-decodes `q[i..e]`, with `+` as space, appending to `acc`.
pub open spec fn pct(q: Seq<u8>, i: int, e: int, acc: Seq<u8>) -> Seq<u8>
    decreases e - i,
{
    if !(0 <= i < e && i < q.len()) {
        acc
    } else if q[i] == 0x25 && i + 2 < e && i + 2 < q.len() && hex_val(q[i + 1]) is Some && hex_val(
        q[i + 2],
    ) is Some {
        pct(q, i + 3, e, acc.push((hex_val(q[i + 1]).unwrap() * 16 + hex_val(q[i + 2]).unwrap()) as u8))
    } else if q[i] == 0x2b {
        pct(q, i + 1, e, acc.push(0x20))
    } else {
        pct(q, i + 1, e, acc.push(q[i]))
    }
}

/// The requested output format: the decoded value of the first `format`
/// key at or after `i`, or `json` when there is none.
pub open spec fn query_fmt(q: Seq<u8>, i: int) -> Seq<u8>
    decreases q.len() - i,
{
    if !(0 <= i < q.len()) {
        json_fmt()
    } else {
        let e = clip(i, q.len() as int, amp_end(q, i));
        let ke = match eq_pos(q, i, e) {
            Some(p0) => p0,
            None => e,
        };
        let vs = match eq_pos(q, i, e) {
            Some(p0) => p0 + 1,
            None => e,
        };
        if pct(q, i, ke, Seq::empty()) == format_key() {
            pct(q, vs, e, Seq::empty())
        } else {
            query_fmt(q, clip(i + 1, q.len() as int, e + 1))
        }
    }
}

/// Finds the next `&`; the executable twin of `amp_end`.
fn amp_scan(q: &Vec<u8>, i: usize) -> (r: usize)
    requires
        i <= q.len(),
    ensures
        r as int == amp_end(q@, i as int),
        i <= r <= q.len(),
{
    let mut j = i;
    while j < q.len() && q[j] != 0x26
        invariant
            i <= j <= q.len(),
            amp_end(q@, i as int) == amp_end(q@, j as int),
        decreases q.len() - j,
    {
        j = j + 1;
    }
    j
}

/// Finds the first `=`; the executable twin of `eq_pos`.
fn eq_scan(q: &Vec<u8>, i: usize, e: usize) -> (r: Option<usize>)
    requires
        i <= e <= q.len(),
    ensures
        match eq_pos(q@, i as int, e as int) {
            Some(p0) => r is Some && r.unwrap() as int == p0 && i <= r.unwrap() < e,
            None => r is None,
        },
{
    let mut j = i;
    while j < e && q[j] != 0x3d
        invariant
            i <= j <= e <= q.len(),
            eq_pos(q@, i as int, e as int) == eq_pos(q@, j as int, e as int),
        decreases e - j,
    {
        j = j + 1;
    }
    if j < e {
        Some(j)
    } else {
        None
    }
}

/// Percent-decodes a range; the executable twin of `pct`.
fn pct_decode(q: &Vec<u8>, i: usize, e: usize) -> (r: Vec<u8>)
    requires
        e <= q.len(),
    ensures
        r@ == pct(q@, i as int, e as int, Seq::empty()),
{
    let mut acc: Vec<u8> = Vec::new();
    let mut j = i;
    loop
        invariant
            e <= q.len(),
            i <= j,
            pct(q@, i as int, e as int, Seq::empty()) == pct(q@, j as int, e as int, acc@),
        decreases (if j < e { e - j } else { 0 }),
    {
        if j >= e || j >= q.len() {
            return acc;
        }
        let b = q[j];
        if b == 0x25 && e - j > 2 {
            let h1 = crate::json::hex_digit(q[j + 1]);
            let h2 = crate::json::hex_digit(q[j + 2]);
            match (h1, h2) {
                (Some(a), Some(c)) => {
                    acc.push(a * 16 + c);
                    j = j + 3;
                },
                _ => {
                    acc.push(b);
                    j = j + 1;
                },
            }
        } else if b == 0x2b {
            acc.push(0x20);
            j = j + 1;
        } else {
            acc.push(b);
            j = j + 1;
        }
    }
}

/// Reads the requested output format from the query string; the
/// executable twin of `query_fmt`.
pub fn query_format(q: &Vec<u8>) -> (r: Vec<u8>)
    ensures
        r@ == query_fmt(q@, 0),
{
    let k_format = format_key_x();
    let mut i: usize = 0;
    loop
        invariant
            i <= q.len(),
            query_fmt(q@, 0) == query_fmt(q@, i as int),
            k_format@ == format_key(),
        decreases q.len() - i,
    {
        if i >= q.len() {
            return json_fmt_x();
        }
        let e = amp_scan(q, i);
        let ke: usize;
        let vs: usize;
        match eq_scan(q, i, e) {
            Some(p0) => {
                ke = p0;
                vs = p0 + 1;
            },
            None => {
                ke = e;
                vs = e;
            },
        }
        let keyb = pct_decode(q, i, ke);
        if crate::request::bytes_eq(&keyb, &k_format) {
            return pct_decode(q, vs, e);
        }
        if e >= q.len() {
            i = q.len();
        } else {
            i = e + 1;
        }
    }
}

} // verus!
