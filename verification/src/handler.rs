//! Dispatch of one HTTP request through the whole pipeline.

use vstd::prelude::*;
use crate::request::spec_decode;
use crate::request::decode_request;
use crate::request::ReqV;
use crate::respond::value_body;
use crate::respond::render_value_body;
use crate::respond::spec_err_text;
use crate::respond::err_text;
use crate::respond::unsupported_text;
use crate::respond::unsupported_msg;
use crate::respond::bad_params_text;
use crate::respond::bad_params_text_x;
use crate::respond::json_fmt;
use crate::respond::json_fmt_x;
use crate::query::query_fmt;
use crate::query::query_format;
use crate::sample::handle_request;
use crate::sample::int_f64_text;
use crate::sample::is_value_text;
use crate::sample::is_zero_tok;
use crate::sample::is_one_tok;
use crate::sample::zero_text;
use crate::sample::one_text;
use crate::request::bytes_eq;

verus! {

/// The bytes of ``POST``.
pub open spec fn post_method() -> Seq<u8> {
    seq![0x50u8, 0x4fu8, 0x53u8, 0x54u8]
}

/// Builds the bytes of ``POST``.
pub fn post_method_x() -> (r: Vec<u8>)
    ensures
        r@ == post_method(),
{
    let v: Vec<u8> = vec![0x50u8, 0x4fu8, 0x53u8, 0x54u8];
    proof {
        assert(v@ =~= post_method());
    }
    v
}

/// The bytes of ``/random``.
pub open spec fn random_path() -> Seq<u8> {
    seq![0x2fu8, 0x72u8, 0x61u8, 0x6eu8, 0x64u8, 0x6fu8, 0x6du8]
}

/// Builds the bytes of ``/random``.
pub fn random_path_x() -> (r: Vec<u8>)
    ensures
        r@ == random_path(),
{
    let v: Vec<u8> = vec![0x2fu8, 0x72u8, 0x61u8, 0x6eu8, 0x64u8, 0x6fu8, 0x6du8];
    proof {
        assert(v@ =~= random_path());
    }
    v
}

/// The bytes of ``Not Found``.
pub open spec fn not_found_text() -> Seq<u8> {
    seq![0x4eu8, 0x6fu8, 0x74u8, 0x20u8, 0x46u8, 0x6fu8, 0x75u8, 0x6eu8, 0x64u8]
}

/// Builds the bytes of ``Not Found``.
pub fn not_found_text_x() -> (r: Vec<u8>)
    ensures
        r@ == not_found_text(),
{
    let v: Vec<u8> = vec![0x4eu8, 0x6fu8, 0x74u8, 0x20u8, 0x46u8, 0x6fu8, 0x75u8, 0x6eu8, 0x64u8];
    proof {
        assert(v@ =~= not_found_text());
    }
    v
}

/// One HTTP response: a status code and a body.
pub struct HttpResponse {
    pub status: u16,
    pub body: Vec<u8>,
}

/// Everything the handler promises of its response.
///
/// Only `POST /random` is served; anything else is a `404` with the fixed
/// body. A body that does not decode is a `422` carrying the decoding
/// error; then a format other than `json` is a `422` naming the format;
/// degenerate distribution parameters are a `422`; otherwise the response
/// is a `200` whose body wraps the sampled value, which for a uniform
/// request lies in `[start, end)` and for a Bernoulli request follows the
/// probability when it is exactly zero or one.
pub open spec fn handle_spec(
    m: Seq<u8>,
    pth: Seq<u8>,
    q: Seq<u8>,
    b: Seq<u8>,
    status: int,
    body: Seq<u8>,
) -> bool {
    if !(m == post_method() && pth == random_path()) {
        status == 404 && body == not_found_text()
    } else {
        match spec_decode(b) {
            Err(e) => status == 422 && body == spec_err_text(e),
            Ok(req) => {
                let fmt = query_fmt(q, 0);
                if fmt != json_fmt() {
                    status == 422 && body == unsupported_text(fmt)
                } else {
                    match req {
                        ReqV::Uniform { start, end } => if start < end {
                            status == 200 && exists|k: i32|
                                start <= k < end && body == value_body(int_f64_text(k as int))
                        } else {
                            status == 422 && body == bad_params_text()
                        },
                        ReqV::Normal { mean, std_dev } => (status == 200 && exists|vt: Seq<u8>|
                            is_value_text(vt) && body == value_body(vt)) || (status == 422 && body
                            == bad_params_text()),
                        ReqV::Bernoulli { p } => (status == 200 && ((body == value_body(
                            zero_text(),
                        ) && !is_one_tok(p)) || (body == value_body(one_text()) && !is_zero_tok(
                            p,
                        )))) || (status == 422 && !is_zero_tok(p) && !is_one_tok(p) && body
                            == bad_params_text()),
                    }
                }
            },
        }
    }
}

/// Serves one request: routes it, decodes the body, draws the sample and
/// renders the response, mapping every failure to its status.
pub fn handle(method: &Vec<u8>, path: &Vec<u8>, query: &Vec<u8>, body: &Vec<u8>) -> (r:
    HttpResponse)
    ensures
        handle_spec(method@, path@, query@, body@, r.status as int, r.body@),
{
    let m_post = post_method_x();
    let p_rand = random_path_x();
    if !(bytes_eq(method, &m_post) && bytes_eq(path, &p_rand)) {
        return HttpResponse { status: 404, body: not_found_text_x() };
    }
    match decode_request(body) {
        Err(e) => {
            let msg = err_text(&e);
            HttpResponse { status: 422, body: msg }
        },
        Ok(req) => {
            let fmt = query_format(query);
            let jf = json_fmt_x();
            if !bytes_eq(&fmt, &jf) {
                let msg = unsupported_msg(&fmt);
                return HttpResponse { status: 422, body: msg };
            }
            match handle_request(&req) {
                Some(vt) => {
                    let out = render_value_body(&vt);
                    proof {
                        match req@ {
                            ReqV::Uniform { start, end } => {
                            },
                            ReqV::Normal { mean, std_dev } => {
                                assert(is_value_text(vt@) && out@ == value_body(vt@));
                            },
                            ReqV::Bernoulli { p } => {
                                assert(zero_text()[0] != one_text()[0]);
                                if vt@ == zero_text() {
                                    assert(out@ == value_body(zero_text()) && !is_one_tok(p));
                                } else {
                                    assert(out@ == value_body(one_text()) && !is_zero_tok(p));
                                }
                            },
                        }
                    }
                    HttpResponse { status: 200, body: out }
                },
                None => HttpResponse { status: 422, body: bad_params_text_x() },
            }
        },
    }
}

} // verus!
