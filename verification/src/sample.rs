//! Drawing one sample from a decoded distribution request.
//!
//! The calls into the random-number crates stand behind trusted wrappers;
//! everything around them is verified. Floating-point values never cross
//! the verified core: the continuous distributions take their parameters
//! as number tokens and hand their sample back as the JSON text of the
//! drawn value.

use vstd::prelude::*;
use crate::json::is_num_token;
use crate::request::RngRequest;
use crate::request::ReqV;

verus! {

/// The bytes of `0.0`.
pub open spec fn zero_text() -> Seq<u8> {
    seq![0x30u8, 0x2eu8, 0x30u8]
}

/// The bytes of `1.0`.
pub open spec fn one_text() -> Seq<u8> {
    seq![0x31u8, 0x2eu8, 0x30u8]
}

/// The bytes of `null`.
pub open spec fn null_text() -> Seq<u8> {
    seq![0x6eu8, 0x75u8, 0x6cu8, 0x6cu8]
}

/// Whether `t` is a token that the value of a sample may be rendered as:
/// a JSON number, or `null` (what a non-finite value serializes to).
pub open spec fn is_value_text(t: Seq<u8>) -> bool {
    is_num_token(t) || t == null_text()
}

/// Whether a number token spells exactly zero in one of the plain forms.
pub open spec fn is_zero_tok(t: Seq<u8>) -> bool {
    t == seq![0x30u8] || t == zero_text()
}

/// Whether a number token spells exactly one in one of the plain forms.
pub open spec fn is_one_tok(t: Seq<u8>) -> bool {
    t == seq![0x31u8] || t == one_text()
}

/// The decimal digits of a non-negative integer.
pub open spec fn dec_digits(n: int) -> Seq<u8>
    decreases n,
{
    if n < 10 {
        seq![(0x30 + n) as u8]
    } else {
        dec_digits(n / 10).push((0x30 + n % 10) as u8)
    }
}

/// The JSON text of an integer widened to a float: its digits and `.0`,
/// as the shortest-round-trip form prints it.
pub open spec fn int_f64_text(k: int) -> Seq<u8> {
    let mag = if k < 0 {
        -k
    } else {
        k
    };
    let sign: Seq<u8> = if k < 0 {
        seq![0x2du8]
    } else {
        Seq::empty()
    };
    sign + dec_digits(mag) + seq![0x2eu8, 0x30u8]
}

/// Appends the decimal digits of `n`.
fn push_digits(n: u32, out: &mut Vec<u8>)
    ensures
        final(out)@ == old(out)@ + dec_digits(n as int),
    decreases n,
{
    if n < 10 {
        out.push(0x30 + (n as u8));
        proof {
            assert(final(out)@ =~= old(out)@ + dec_digits(n as int));
        }
    } else {
        push_digits(n / 10, out);
        out.push(0x30 + ((n % 10) as u8));
        proof {
            assert(final(out)@ =~= old(out)@ + dec_digits(n as int));
        }
    }
}

/// Renders an `i32` sample as the JSON text of its float widening.
pub fn int_value_text(k: i32) -> (r: Vec<u8>)
    ensures
        r@ == int_f64_text(k as int),
{
    let mut out: Vec<u8> = Vec::new();
    let mag: u32 = if k < 0 {
        out.push(0x2d);
        (-(k as i64)) as u32
    } else {
        k as u32
    };
    push_digits(mag, &mut out);
    out.push(0x2e);
    out.push(0x30);
    proof {
        assert(out@ =~= int_f64_text(k as int));
    }
    out
}

/// Relies on rand's `Rng::gen_range`: for integers, a sample of the range
/// `start..end` is uniformly distributed over `[start, end)`; the call
/// panics only when the range is empty, which the precondition rules out.
#[verifier::external_body]
fn sample_uniform(start: i32, end: i32) -> (r: i32)
    requires
        start < end,
    ensures
        start <= r < end,
{
    rand::Rng::gen_range(&mut rand::thread_rng(), start..end)
}

/// Relies on rand's `Bernoulli`: `Bernoulli::new(p)` returns `Ok` for
/// `p` in `[0, 1]` (so for the plain tokens `0`, `0.0`, `1` and `1.0`,
/// whose float values are exact), and the resulting distribution always
/// yields `false` for `p = 0` and always `true` for `p = 1`, as its
/// documentation states. The token is read as a float by serde_json.
#[verifier::external_body]
fn sample_bernoulli(p_tok: &Vec<u8>) -> (r: Option<bool>)
    ensures
        is_zero_tok(p_tok@) ==> r == Some(false),
        is_one_tok(p_tok@) ==> r == Some(true),
{
    let pv = serde_json::from_slice::<serde_json::Value>(p_tok.as_slice()).ok()?.as_f64()?;
    let dist = rand::distributions::Bernoulli::new(pv).ok()?;
    Some(rand::Rng::sample(&mut rand::thread_rng(), dist))
}

/// Relies on rand_distr's `Normal` for the draw and on serde_json for
/// rendering the drawn float: `Normal::new` returns `Ok` unless the
/// standard deviation is not finite, and serde_json serializes a finite
/// float as a JSON number token and a non-finite one as `null`.
#[verifier::external_body]
fn sample_normal(mean_tok: &Vec<u8>, std_tok: &Vec<u8>) -> (r: Option<Vec<u8>>)
    ensures
        match r {
            Some(v) => is_value_text(v@),
            None => true,
        },
{
    let m = serde_json::from_slice::<serde_json::Value>(mean_tok.as_slice()).ok()?.as_f64()?;
    let sd = serde_json::from_slice::<serde_json::Value>(std_tok.as_slice()).ok()?.as_f64()?;
    let dist = rand_distr::Normal::new(m, sd).ok()?;
    let v = rand::Rng::sample(&mut rand::thread_rng(), dist);
    let txt = serde_json::to_string(&v).ok()?;
    Some(txt.into_bytes())
}

/// Draws one sample for a request and returns the JSON text of its value;
/// `None` when the parameters are unusable. Degenerate parameters — an
/// empty range, a probability outside `[0, 1]`, a deviation that is not
/// finite — are deliberately rejected rather than handed to the
/// underlying primitives, so that no request can bring the handler down.
pub fn handle_request(req: &RngRequest) -> (r: Option<Vec<u8>>)
    ensures
        match req@ {
            ReqV::Uniform { start, end } => if start < end {
                r is Some && exists|k: i32|
                    start <= k < end && r.unwrap()@ == int_f64_text(k as int)
            } else {
                r is None
            },
            ReqV::Normal { mean, std_dev } => match r {
                Some(v) => is_value_text(v@),
                None => true,
            },
            ReqV::Bernoulli { p } => match r {
                Some(v) => (v@ == zero_text() || v@ == one_text()) && (is_zero_tok(p) ==> v@
                    == zero_text()) && (is_one_tok(p) ==> v@ == one_text()),
                None => !is_zero_tok(p) && !is_one_tok(p),
            },
        },
{
    match req {
        RngRequest::Uniform { start, end } => {
            if *start < *end {
                let k = sample_uniform(*start, *end);
                let txt = int_value_text(k);
                proof {
                    assert(exists|q: i32| *start <= q < *end && txt@ == int_f64_text(q as int));
                }
                Some(txt)
            } else {
                None
            }
        },
        RngRequest::Normal { mean, std_dev } => sample_normal(mean, std_dev),
        RngRequest::Bernoulli { p } => {
            match sample_bernoulli(p) {
                None => None,
                Some(bit) => {
                    let v: Vec<u8> = if bit {
                        vec![0x31u8, 0x2eu8, 0x30u8]
                    } else {
                        vec![0x30u8, 0x2eu8, 0x30u8]
                    };
                    proof {
                        if bit {
                            assert(v@ =~= one_text());
                        } else {
                            assert(v@ =~= zero_text());
                        }
                    }
                    Some(v)
                },
            }
        },
    }
}

} // verus!
