//! A JSON parser for request bodies.
//!
//! The grammar is the one of standard JSON: a document is a single value
//! surrounded by optional whitespace; strings are UTF-8 with the usual
//! escapes (including `\uXXXX` and surrogate pairs); numbers follow the
//! JSON number grammar; arrays and objects nest up to a fixed depth.
//! The spec-level parser below is the definition of the grammar, and the
//! executable scanners are proved to return exactly its results.

use vstd::prelude::*;

verus! {

/// A parsed JSON value, at the specification level. Object members are
/// kept in order of appearance; duplicate keys are kept as they come.
pub enum JVal {
    Null,
    Bool(bool),
    /// The raw token of a number, e.g. `-12.5e3`.
    Num(Seq<u8>),
    /// The decoded bytes of a string (escapes resolved, UTF-8 encoded).
    Str(Seq<u8>),
    Arr(Seq<JVal>),
    Obj(Seq<(Seq<u8>, JVal)>),
}

/// How deep arrays and objects may nest before the parser gives up.
pub open spec fn max_depth() -> int {
    128
}

pub open spec fn is_ws(b: u8) -> bool {
    b == 0x20 || b == 0x09 || b == 0x0a || b == 0x0d
}

pub open spec fn is_digit(b: u8) -> bool {
    0x30 <= b <= 0x39
}

/// Clamps an index coming out of an opaque scan so that recursion measures
/// visibly decrease; every use is proved to be the identity.
pub open spec fn clip(lo: int, hi: int, j: int) -> int {
    if j < lo {
        lo
    } else if j > hi {
        hi
    } else {
        j
    }
}

/// The first index at or after `i` that does not hold whitespace.
pub open spec fn ws_end(s: Seq<u8>, i: int) -> int
    decreases s.len() - i,
{
    if 0 <= i < s.len() && is_ws(s[i]) {
        ws_end(s, i + 1)
    } else {
        i
    }
}

/// The first index at or after `i` that does not hold a decimal digit.
pub open spec fn digits_end(s: Seq<u8>, i: int) -> int
    decreases s.len() - i,
{
    if 0 <= i < s.len() && is_digit(s[i]) {
        digits_end(s, i + 1)
    } else {
        i
    }
}

/// End of the fraction part beginning at `i`, if the text there is valid.
pub open spec fn frac_end(s: Seq<u8>, i: int) -> Option<int> {
    if 0 <= i < s.len() && s[i] == 0x2e {
        let j = digits_end(s, i + 1);
        if j > i + 1 {
            Some(j)
        } else {
            None
        }
    } else {
        Some(i)
    }
}

/// End of the exponent part beginning at `i`, if the text there is valid.
pub open spec fn exp_end(s: Seq<u8>, i: int) -> Option<int> {
    if 0 <= i < s.len() && (s[i] == 0x65 || s[i] == 0x45) {
        let j = if 0 <= i + 1 < s.len() && (s[i + 1] == 0x2b || s[i + 1] == 0x2d) {
            i + 2
        } else {
            i + 1
        };
        let k = digits_end(s, j);
        if k > j {
            Some(k)
        } else {
            None
        }
    } else {
        Some(i)
    }
}

/// End of a number token beginning at `i`, if the text there is one.
pub open spec fn num_end(s: Seq<u8>, i: int) -> Option<int> {
    let j = if 0 <= i < s.len() && s[i] == 0x2d {
        i + 1
    } else {
        i
    };
    if 0 <= j < s.len() && is_digit(s[j]) {
        let k = if s[j] == 0x30 {
            j + 1
        } else {
            digits_end(s, j)
        };
        match frac_end(s, k) {
            Some(k2) => exp_end(s, k2),
            None => None,
        }
    } else {
        None
    }
}

/// Whether a whole sequence is one valid JSON number token.
pub open spec fn is_num_token(s: Seq<u8>) -> bool {
    num_end(s, 0) == Some(s.len() as int)
}

pub open spec fn hex_val(b: u8) -> Option<u8> {
    if 0x30 <= b <= 0x39 {
        Some((b - 0x30) as u8)
    } else if 0x61 <= b <= 0x66 {
        Some((b - 0x57) as u8)
    } else if 0x41 <= b <= 0x46 {
        Some((b - 0x37) as u8)
    } else {
        None
    }
}

/// The value of the four hex digits at `i`, if they are all hex digits.
pub open spec fn hex4(s: Seq<u8>, i: int) -> Option<int> {
    if 0 <= i && i + 4 <= s.len() {
        match hex_val(s[i]) {
            Some(a) => match hex_val(s[i + 1]) {
                Some(b) => match hex_val(s[i + 2]) {
                    Some(c) => match hex_val(s[i + 3]) {
                        Some(d) => Some(a * 0x1000 + b * 0x100 + c * 0x10 + d),
                        None => None,
                    },
                    None => None,
                },
                None => None,
            },
            None => None,
        }
    } else {
        None
    }
}

/// The byte that a one-character escape `\x` stands for, if `x` is one.
pub open spec fn esc_char(b: u8) -> Option<u8> {
    if b == 0x22 {
        Some(0x22)
    } else if b == 0x5c {
        Some(0x5c)
    } else if b == 0x2f {
        Some(0x2f)
    } else if b == 0x62 {
        Some(0x08)
    } else if b == 0x66 {
        Some(0x0c)
    } else if b == 0x6e {
        Some(0x0a)
    } else if b == 0x72 {
        Some(0x0d)
    } else if b == 0x74 {
        Some(0x09)
    } else {
        None
    }
}

/// The UTF-8 encoding of a code point outside the surrogate range.
pub open spec fn utf8_enc(c: int) -> Seq<u8> {
    if 0 <= c < 0x80 {
        seq![c as u8]
    } else if c < 0x800 {
        seq![(0xc0 + c / 0x40) as u8, (0x80 + c % 0x40) as u8]
    } else if c < 0x10000 {
        seq![
            (0xe0 + c / 0x1000) as u8,
            (0x80 + (c / 0x40) % 0x40) as u8,
            (0x80 + c % 0x40) as u8,
        ]
    } else {
        seq![
            (0xf0 + c / 0x40000) as u8,
            (0x80 + (c / 0x1000) % 0x40) as u8,
            (0x80 + (c / 0x40) % 0x40) as u8,
            (0x80 + c % 0x40) as u8,
        ]
    }
}

pub open spec fn is_cont(b: u8) -> bool {
    0x80 <= b <= 0xbf
}

/// Length of the valid multi-byte UTF-8 sequence starting at `i`, if the
/// bytes there form one (overlong forms and surrogates rejected).
pub open spec fn utf8_len(s: Seq<u8>, i: int) -> Option<int> {
    if !(0 <= i < s.len()) {
        None
    } else {
        let b = s[i];
        if 0xc2 <= b <= 0xdf {
            if i + 2 <= s.len() && is_cont(s[i + 1]) {
                Some(2)
            } else {
                None
            }
        } else if b == 0xe0 {
            if i + 3 <= s.len() && 0xa0 <= s[i + 1] <= 0xbf && is_cont(s[i + 2]) {
                Some(3)
            } else {
                None
            }
        } else if b == 0xed {
            if i + 3 <= s.len() && 0x80 <= s[i + 1] <= 0x9f && is_cont(s[i + 2]) {
                Some(3)
            } else {
                None
            }
        } else if 0xe1 <= b <= 0xef {
            if i + 3 <= s.len() && is_cont(s[i + 1]) && is_cont(s[i + 2]) {
                Some(3)
            } else {
                None
            }
        } else if b == 0xf0 {
            if i + 4 <= s.len() && 0x90 <= s[i + 1] <= 0xbf && is_cont(s[i + 2]) && is_cont(
                s[i + 3],
            ) {
                Some(4)
            } else {
                None
            }
        } else if 0xf1 <= b <= 0xf3 {
            if i + 4 <= s.len() && is_cont(s[i + 1]) && is_cont(s[i + 2]) && is_cont(s[i + 3]) {
                Some(4)
            } else {
                None
            }
        } else if b == 0xf4 {
            if i + 4 <= s.len() && 0x80 <= s[i + 1] <= 0x8f && is_cont(s[i + 2]) && is_cont(
                s[i + 3],
            ) {
                Some(4)
            } else {
                None
            }
        } else {
            None
        }
    }
}

/// Scans a string body starting just after the opening quote, accumulating
/// the decoded bytes; returns the decoded text and the index after the
/// closing quote.
pub open spec fn str_end(s: Seq<u8>, i: int, acc: Seq<u8>) -> Option<(Seq<u8>, int)>
    decreases s.len() - i,
{
    if !(0 <= i < s.len()) {
        None
    } else if s[i] == 0x22 {
        Some((acc, i + 1))
    } else if s[i] == 0x5c {
        if i + 1 < s.len() {
            let e = s[i + 1];
            if e == 0x75 {
                match hex4(s, i + 2) {
                    Some(c) => if 0xd800 <= c < 0xdc00 {
                        if i + 12 <= s.len() && s[i + 6] == 0x5c && s[i + 7] == 0x75 {
                            match hex4(s, i + 8) {
                                Some(c2) => if 0xdc00 <= c2 < 0xe000 {
                                    str_end(
                                        s,
                                        i + 12,
                                        acc + utf8_enc(0x10000 + (c - 0xd800) * 0x400 + (c2 - 0xdc00)),
                                    )
                                } else {
                                    None
                                },
                                None => None,
                            }
                        } else {
                            None
                        }
                    } else if 0xdc00 <= c < 0xe000 {
                        None
                    } else {
                        str_end(s, i + 6, acc + utf8_enc(c))
                    },
                    None => None,
                }
            } else {
                match esc_char(e) {
                    Some(b) => str_end(s, i + 2, acc.push(b)),
                    None => None,
                }
            }
        } else {
            None
        }
    } else if s[i] < 0x20 {
        None
    } else if s[i] < 0x80 {
        str_end(s, i + 1, acc.push(s[i]))
    } else {
        match utf8_len(s, i) {
            Some(n) => {
                let n2 = if n < 2 {
                    2
                } else if n > 4 {
                    4
                } else {
                    n
                };
                str_end(s, i + n2, acc + s.subrange(i, i + n2))
            },
            None => None,
        }
    }
}

/// Parses the JSON value starting at the non-whitespace index `i`, with at
/// most `d` levels of nesting left; returns the value and the index just
/// after it.
pub open spec fn parse_value(s: Seq<u8>, i: int, d: int) -> Option<(JVal, int)>
    decreases d, s.len() - i, 0int,
{
    if d <= 0 || !(0 <= i < s.len()) {
        None
    } else {
        let b = s[i];
        if b == 0x7b {
            parse_members(s, clip(i + 1, s.len() as int, ws_end(s, i + 1)), d, Seq::empty(), true)
        } else if b == 0x5b {
            parse_elems(s, clip(i + 1, s.len() as int, ws_end(s, i + 1)), d, Seq::empty(), true)
        } else if b == 0x22 {
            match str_end(s, i + 1, Seq::empty()) {
                Some(p) => Some((JVal::Str(p.0), p.1)),
                None => None,
            }
        } else if b == 0x74 {
            if i + 4 <= s.len() && s[i + 1] == 0x72 && s[i + 2] == 0x75 && s[i + 3] == 0x65 {
                Some((JVal::Bool(true), i + 4))
            } else {
                None
            }
        } else if b == 0x66 {
            if i + 5 <= s.len() && s[i + 1] == 0x61 && s[i + 2] == 0x6c && s[i + 3] == 0x73 && s[i
                + 4] == 0x65 {
                Some((JVal::Bool(false), i + 5))
            } else {
                None
            }
        } else if b == 0x6e {
            if i + 4 <= s.len() && s[i + 1] == 0x75 && s[i + 2] == 0x6c && s[i + 3] == 0x6c {
                Some((JVal::Null, i + 4))
            } else {
                None
            }
        } else if b == 0x2d || is_digit(b) {
            match num_end(s, i) {
                Some(j) => Some((JVal::Num(s.subrange(i, j)), j)),
                None => None,
            }
        } else {
            None
        }
    }
}

/// Parses the elements of an array from the non-whitespace index `i`
/// (just after `[` or a comma), having already read `acc`.
pub open spec fn parse_elems(s: Seq<u8>, i: int, d: int, acc: Seq<JVal>, first: bool) -> Option<
    (JVal, int),
>
    decreases d, s.len() - i, 1int,
{
    if d <= 0 || !(0 <= i < s.len()) {
        None
    } else if first && s[i] == 0x5d {
        Some((JVal::Arr(acc), i + 1))
    } else {
        match parse_value(s, i, d - 1) {
            Some(p) => {
                let k = ws_end(s, p.1);
                if 0 <= k < s.len() && s[k] == 0x5d {
                    Some((JVal::Arr(acc.push(p.0)), k + 1))
                } else if 0 <= k < s.len() && s[k] == 0x2c {
                    parse_elems(s, clip(i + 1, s.len() as int, ws_end(s, k + 1)), d, acc.push(p.0), false)
                } else {
                    None
                }
            },
            None => None,
        }
    }
}

/// Parses the members of an object from the non-whitespace index `i`
/// (just after `{` or a comma), having already read `acc`.
pub open spec fn parse_members(
    s: Seq<u8>,
    i: int,
    d: int,
    acc: Seq<(Seq<u8>, JVal)>,
    first: bool,
) -> Option<(JVal, int)>
    decreases d, s.len() - i, 1int,
{
    if d <= 0 || !(0 <= i < s.len()) {
        None
    } else if first && s[i] == 0x7d {
        Some((JVal::Obj(acc), i + 1))
    } else if s[i] == 0x22 {
        match str_end(s, i + 1, Seq::empty()) {
            Some(kp) => {
                let k = ws_end(s, kp.1);
                if 0 <= k < s.len() && s[k] == 0x3a {
                    match parse_value(s, ws_end(s, k + 1), d - 1) {
                        Some(vp) => {
                            let n = ws_end(s, vp.1);
                            if 0 <= n < s.len() && s[n] == 0x7d {
                                Some((JVal::Obj(acc.push((kp.0, vp.0))), n + 1))
                            } else if 0 <= n < s.len() && s[n] == 0x2c {
                                parse_members(
                                    s,
                                    clip(i + 1, s.len() as int, ws_end(s, n + 1)),
                                    d,
                                    acc.push((kp.0, vp.0)),
                                    false,
                                )
                            } else {
                                None
                            }
                        },
                        None => None,
                    }
                } else {
                    None
                }
            },
            None => None,
        }
    } else {
        None
    }
}

/// Parses a whole document: one value with whitespace around it.
pub open spec fn parse_doc(s: Seq<u8>) -> Option<JVal> {
    match parse_value(s, ws_end(s, 0), max_depth()) {
        Some(p) => if ws_end(s, p.1) == s.len() {
            Some(p.0)
        } else {
            None
        },
        None => None,
    }
}

/// `digits_end` never moves backwards.
pub proof fn lemma_digits_end_ge(s: Seq<u8>, i: int)
    ensures
        digits_end(s, i) >= i,
    decreases s.len() - i,
{
    if 0 <= i < s.len() && is_digit(s[i]) {
        lemma_digits_end_ge(s, i + 1);
    }
}

/// Skips whitespace; the executable twin of `ws_end`.
pub fn ws_skip(s: &Vec<u8>, i: usize) -> (r: usize)
    requires
        i <= s.len(),
    ensures
        r as int == ws_end(s@, i as int),
        i <= r <= s.len(),
{
    let mut j = i;
    while j < s.len() && (s[j] == 0x20 || s[j] == 0x09 || s[j] == 0x0a || s[j] == 0x0d)
        invariant
            i <= j <= s.len(),
            ws_end(s@, i as int) == ws_end(s@, j as int),
        decreases s.len() - j,
    {
        j = j + 1;
    }
    j
}

/// Skips decimal digits; the executable twin of `digits_end`.
fn scan_digits(s: &Vec<u8>, i: usize) -> (r: usize)
    requires
        i <= s.len(),
    ensures
        r as int == digits_end(s@, i as int),
        i <= r <= s.len(),
{
    let mut j = i;
    while j < s.len() && 0x30 <= s[j] && s[j] <= 0x39
        invariant
            i <= j <= s.len(),
            digits_end(s@, i as int) == digits_end(s@, j as int),
        decreases s.len() - j,
    {
        j = j + 1;
    }
    j
}

/// Scans a number token; the executable twin of `num_end`.
pub fn scan_number(s: &Vec<u8>, i: usize) -> (r: Option<usize>)
    requires
        i <= s.len(),
    ensures
        match num_end(s@, i as int) {
            Some(e) => r is Some && r.unwrap() as int == e && i < r.unwrap() <= s.len(),
            None => r is None,
        },
{
    let mut j = i;
    if j < s.len() && s[j] == 0x2d {
        j = j + 1;
    }
    if !(j < s.len() && 0x30 <= s[j] && s[j] <= 0x39) {
        return None;
    }
    let k: usize;
    if s[j] == 0x30 {
        k = j + 1;
    } else {
        k = scan_digits(s, j);
        proof {
            lemma_digits_end_ge(s@, j as int + 1);
        }
    }
    let k2: usize;
    if k < s.len() && s[k] == 0x2e {
        let k3 = scan_digits(s, k + 1);
        if k3 > k + 1 {
            k2 = k3;
        } else {
            return None;
        }
    } else {
        k2 = k;
    }
    if k2 < s.len() && (s[k2] == 0x65 || s[k2] == 0x45) {
        let k4: usize = if k2 + 1 < s.len() && (s[k2 + 1] == 0x2b || s[k2 + 1] == 0x2d) {
            k2 + 2
        } else {
            k2 + 1
        };
        let k5 = scan_digits(s, k4);
        if k5 > k4 {
            Some(k5)
        } else {
            None
        }
    } else {
        Some(k2)
    }
}

/// Reads one hex digit; the executable twin of `hex_val`.
pub fn hex_digit(b: u8) -> (r: Option<u8>)
    ensures
        r == hex_val(b),
{
    if 0x30 <= b && b <= 0x39 {
        Some(b - 0x30)
    } else if 0x61 <= b && b <= 0x66 {
        Some(b - 0x57)
    } else if 0x41 <= b && b <= 0x46 {
        Some(b - 0x37)
    } else {
        None
    }
}

/// Reads four hex digits; the executable twin of `hex4`.
fn hex4_at(s: &Vec<u8>, i: usize) -> (r: Option<u32>)
    requires
        i + 4 <= s.len(),
    ensures
        match hex4(s@, i as int) {
            Some(c) => r is Some && r.unwrap() as int == c,
            None => r is None,
        },
{
    let a = hex_digit(s[i]);
    let b = hex_digit(s[i + 1]);
    let c = hex_digit(s[i + 2]);
    let d = hex_digit(s[i + 3]);
    match (a, b, c, d) {
        (Some(a), Some(b), Some(c), Some(d)) => Some(
            (a as u32) * 0x1000 + (b as u32) * 0x100 + (c as u32) * 0x10 + (d as u32),
        ),
        _ => None,
    }
}

/// Decodes a one-character escape; the executable twin of `esc_char`.
fn esc_byte(b: u8) -> (r: Option<u8>)
    ensures
        r == esc_char(b),
{
    if b == 0x22 {
        Some(0x22)
    } else if b == 0x5c {
        Some(0x5c)
    } else if b == 0x2f {
        Some(0x2f)
    } else if b == 0x62 {
        Some(0x08)
    } else if b == 0x66 {
        Some(0x0c)
    } else if b == 0x6e {
        Some(0x0a)
    } else if b == 0x72 {
        Some(0x0d)
    } else if b == 0x74 {
        Some(0x09)
    } else {
        None
    }
}

/// Appends the UTF-8 encoding of a code point.
fn push_utf8(acc: &mut Vec<u8>, c: u32)
    requires
        c <= 0x10FFFF,
    ensures
        final(acc)@ == old(acc)@ + utf8_enc(c as int),
{
    if c < 0x80 {
        acc.push(c as u8);
    } else if c < 0x800 {
        acc.push((0xc0 + c / 0x40) as u8);
        acc.push((0x80 + c % 0x40) as u8);
    } else if c < 0x10000 {
        acc.push((0xe0 + c / 0x1000) as u8);
        acc.push((0x80 + (c / 0x40) % 0x40) as u8);
        acc.push((0x80 + c % 0x40) as u8);
    } else {
        acc.push((0xf0 + c / 0x40000) as u8);
        acc.push((0x80 + (c / 0x1000) % 0x40) as u8);
        acc.push((0x80 + (c / 0x40) % 0x40) as u8);
        acc.push((0x80 + c % 0x40) as u8);
    }
    proof {
        assert(final(acc)@ =~= old(acc)@ + utf8_enc(c as int));
    }
}

/// Checks one multi-byte UTF-8 sequence; the executable twin of `utf8_len`.
fn utf8_check(s: &Vec<u8>, i: usize) -> (r: Option<usize>)
    requires
        i < s.len(),
    ensures
        match utf8_len(s@, i as int) {
            Some(n) => r is Some && r.unwrap() as int == n && 2 <= r.unwrap() <= 4 && i
                + r.unwrap() <= s.len(),
            None => r is None,
        },
{
    let b = s[i];
    let rem = s.len() - i;
    if 0xc2 <= b && b <= 0xdf {
        if rem >= 2 && 0x80 <= s[i + 1] && s[i + 1] <= 0xbf {
            Some(2)
        } else {
            None
        }
    } else if b == 0xe0 {
        if rem >= 3 && 0xa0 <= s[i + 1] && s[i + 1] <= 0xbf && 0x80 <= s[i + 2] && s[i + 2] <= 0xbf {
            Some(3)
        } else {
            None
        }
    } else if b == 0xed {
        if rem >= 3 && 0x80 <= s[i + 1] && s[i + 1] <= 0x9f && 0x80 <= s[i + 2] && s[i + 2] <= 0xbf {
            Some(3)
        } else {
            None
        }
    } else if 0xe1 <= b && b <= 0xef {
        if rem >= 3 && 0x80 <= s[i + 1] && s[i + 1] <= 0xbf && 0x80 <= s[i + 2] && s[i + 2] <= 0xbf {
            Some(3)
        } else {
            None
        }
    } else if b == 0xf0 {
        if rem >= 4 && 0x90 <= s[i + 1] && s[i + 1] <= 0xbf && 0x80 <= s[i + 2] && s[i + 2] <= 0xbf
            && 0x80 <= s[i + 3] && s[i + 3] <= 0xbf {
            Some(4)
        } else {
            None
        }
    } else if 0xf1 <= b && b <= 0xf3 {
        if rem >= 4 && 0x80 <= s[i + 1] && s[i + 1] <= 0xbf && 0x80 <= s[i + 2] && s[i + 2] <= 0xbf
            && 0x80 <= s[i + 3] && s[i + 3] <= 0xbf {
            Some(4)
        } else {
            None
        }
    } else if b == 0xf4 {
        if rem >= 4 && 0x80 <= s[i + 1] && s[i + 1] <= 0x8f && 0x80 <= s[i + 2] && s[i + 2] <= 0xbf
            && 0x80 <= s[i + 3] && s[i + 3] <= 0xbf {
            Some(4)
        } else {
            None
        }
    } else {
        None
    }
}

/// Scans a string body (the opening quote already consumed) and decodes it;
/// the executable twin of `str_end`.
pub fn scan_string(s: &Vec<u8>, i: usize) -> (r: Option<(Vec<u8>, usize)>)
    requires
        i <= s.len(),
    ensures
        match str_end(s@, i as int, Seq::empty()) {
            Some(p) => r is Some && r.unwrap().0@ == p.0 && r.unwrap().1 as int == p.1 && i
                < r.unwrap().1 <= s.len(),
            None => r is None,
        },
{
    let mut acc: Vec<u8> = Vec::new();
    let mut j = i;
    loop
        invariant
            i <= j <= s.len(),
            str_end(s@, i as int, Seq::empty()) == str_end(s@, j as int, acc@),
        decreases s.len() - j,
    {
        if j >= s.len() {
            return None;
        }
        let b = s[j];
        if b == 0x22 {
            return Some((acc, j + 1));
        }
        if b == 0x5c {
            if s.len() - j < 2 {
                return None;
            }
            let e = s[j + 1];
            if e == 0x75 {
                if s.len() - j < 6 {
                    return None;
                }
                match hex4_at(s, j + 2) {
                    None => {
                        return None;
                    },
                    Some(c) => {
                        if 0xd800 <= c && c < 0xdc00 {
                            if !(s.len() - j >= 12 && s[j + 6] == 0x5c && s[j + 7] == 0x75) {
                                return None;
                            }
                            match hex4_at(s, j + 8) {
                                None => {
                                    return None;
                                },
                                Some(c2) => {
                                    if !(0xdc00 <= c2 && c2 < 0xe000) {
                                        return None;
                                    }
                                    let cp: u32 = 0x10000 + (c - 0xd800) * 0x400 + (c2 - 0xdc00);
                                    push_utf8(&mut acc, cp);
                                    j = j + 12;
                                },
                            }
                        } else if 0xdc00 <= c && c < 0xe000 {
                            return None;
                        } else {
                            push_utf8(&mut acc, c);
                            j = j + 6;
                        }
                    },
                }
            } else {
                match esc_byte(e) {
                    None => {
                        return None;
                    },
                    Some(x) => {
                        acc.push(x);
                        j = j + 2;
                    },
                }
            }
        } else if b < 0x20 {
            return None;
        } else if b < 0x80 {
            acc.push(b);
            j = j + 1;
        } else {
            match utf8_check(s, j) {
                None => {
                    return None;
                },
                Some(n) => {
                    let ghost acc0 = acc@;
                    acc.push(s[j]);
                    acc.push(s[j + 1]);
                    if n >= 3 {
                        acc.push(s[j + 2]);
                    }
                    if n >= 4 {
                        acc.push(s[j + 3]);
                    }
                    proof {
                        assert(acc@ =~= acc0 + s@.subrange(j as int, j as int + n as int));
                    }
                    j = j + n;
                },
            }
        }
    }
}

/// Skips one JSON value starting at the non-whitespace index `i`; the
/// executable twin of `parse_value`, returning only the index just after
/// the value.
pub fn skip_value(s: &Vec<u8>, i: usize, d: u32) -> (r: Option<usize>)
    requires
        i <= s.len(),
    ensures
        match parse_value(s@, i as int, d as int) {
            Some(p) => r is Some && r.unwrap() as int == p.1 && i < r.unwrap() <= s.len(),
            None => r is None,
        },
    decreases d,
{
    if d == 0 || i >= s.len() {
        return None;
    }
    let b = s[i];
    if b == 0x7b {
        let j0 = ws_skip(s, i + 1);
        let mut j = j0;
        let ghost mut acc: Seq<(Seq<u8>, JVal)> = Seq::empty();
        let mut first = true;
        loop
            invariant
                i < s.len(),
                i + 1 <= j <= s.len(),
                1 <= d,
                s@[i as int] == 0x7b,
                parse_value(s@, i as int, d as int) == parse_members(
                    s@,
                    j as int,
                    d as int,
                    acc,
                    first,
                ),
            decreases s.len() - j,
        {
            if j >= s.len() {
                return None;
            }
            if first && s[j] == 0x7d {
                return Some(j + 1);
            }
            if s[j] != 0x22 {
                return None;
            }
            match scan_string(s, j + 1) {
                None => {
                    return None;
                },
                Some((key, j2)) => {
                    let j3 = ws_skip(s, j2);
                    if j3 >= s.len() || s[j3] != 0x3a {
                        return None;
                    }
                    let j4 = ws_skip(s, j3 + 1);
                    match skip_value(s, j4, d - 1) {
                        None => {
                            return None;
                        },
                        Some(m) => {
                            let n = ws_skip(s, m);
                            if n < s.len() && s[n] == 0x7d {
                                return Some(n + 1);
                            } else if n < s.len() && s[n] == 0x2c {
                                let jn = ws_skip(s, n + 1);
                                proof {
                                    acc = acc.push(
                                        (
                                            key@,
                                            parse_value(s@, j4 as int, d as int - 1).unwrap().0,
                                        ),
                                    );
                                }
                                j = jn;
                                first = false;
                            } else {
                                return None;
                            }
                        },
                    }
                },
            }
        }
    } else if b == 0x5b {
        let j0 = ws_skip(s, i + 1);
        let mut j = j0;
        let ghost mut acc: Seq<JVal> = Seq::empty();
        let mut first = true;
        loop
            invariant
                i < s.len(),
                i + 1 <= j <= s.len(),
                1 <= d,
                s@[i as int] == 0x5b,
                parse_value(s@, i as int, d as int) == parse_elems(
                    s@,
                    j as int,
                    d as int,
                    acc,
                    first,
                ),
            decreases s.len() - j,
        {
            if j >= s.len() {
                return None;
            }
            if first && s[j] == 0x5d {
                return Some(j + 1);
            }
            match skip_value(s, j, d - 1) {
                None => {
                    return None;
                },
                Some(m) => {
                    let n = ws_skip(s, m);
                    if n < s.len() && s[n] == 0x5d {
                        return Some(n + 1);
                    } else if n < s.len() && s[n] == 0x2c {
                        let jn = ws_skip(s, n + 1);
                        proof {
                            acc = acc.push(parse_value(s@, j as int, d as int - 1).unwrap().0);
                        }
                        j = jn;
                        first = false;
                    } else {
                        return None;
                    }
                },
            }
        }
    } else if b == 0x22 {
        match scan_string(s, i + 1) {
            Some(p) => Some(p.1),
            None => None,
        }
    } else if b == 0x74 {
        if s.len() - i >= 4 && s[i + 1] == 0x72 && s[i + 2] == 0x75 && s[i + 3] == 0x65 {
            Some(i + 4)
        } else {
            None
        }
    } else if b == 0x66 {
        if s.len() - i >= 5 && s[i + 1] == 0x61 && s[i + 2] == 0x6c && s[i + 3] == 0x73 && s[i + 4]
            == 0x65 {
            Some(i + 5)
        } else {
            None
        }
    } else if b == 0x6e {
        if s.len() - i >= 4 && s[i + 1] == 0x75 && s[i + 2] == 0x6c && s[i + 3] == 0x6c {
            Some(i + 4)
        } else {
            None
        }
    } else if b == 0x2d || (0x30 <= b && b <= 0x39) {
        scan_number(s, i)
    } else {
        None
    }
}

} // verus!
