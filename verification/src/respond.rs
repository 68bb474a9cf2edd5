//! Rendering of responses and of client-visible error messages.

use vstd::prelude::*;
use crate::request::ParseErr;
use crate::request::ErrV;
use crate::request::FieldName;
use crate::request::start_key;
use crate::request::end_key;
use crate::request::mean_key;
use crate::request::std_dev_key;
use crate::request::p_key;
use crate::request::start_key_x;
use crate::request::end_key_x;
use crate::request::mean_key_x;
use crate::request::std_dev_key_x;
use crate::request::p_key_x;

verus! {

/// The bytes of ``json``.
pub open spec fn json_fmt() -> Seq<u8> {
    seq![0x6au8, 0x73u8, 0x6fu8, 0x6eu8]
}

/// Builds the bytes of ``json``.
pub fn json_fmt_x() -> (r: Vec<u8>)
    ensures
        r@ == json_fmt(),
{
    let v: Vec<u8> = vec![0x6au8, 0x73u8, 0x6fu8, 0x6eu8];
    proof {
        assert(v@ =~= json_fmt());
    }
    v
}

/// The bytes of ``{"value":``.
pub open spec fn value_pre() -> Seq<u8> {
    seq![0x7bu8, 0x22u8, 0x76u8, 0x61u8, 0x6cu8, 0x75u8, 0x65u8, 0x22u8, 0x3au8]
}

/// Builds the bytes of ``{"value":``.
pub fn value_pre_x() -> (r: Vec<u8>)
    ensures
        r@ == value_pre(),
{
    let v: Vec<u8> = vec![0x7bu8, 0x22u8, 0x76u8, 0x61u8, 0x6cu8, 0x75u8, 0x65u8, 0x22u8, 0x3au8];
    proof {
        assert(v@ =~= value_pre());
    }
    v
}

/// The bytes of ``unsupported format ``.
pub open spec fn unsupported_pre() -> Seq<u8> {
    seq![0x75u8, 0x6eu8, 0x73u8, 0x75u8, 0x70u8, 0x70u8, 0x6fu8, 0x72u8, 0x74u8, 0x65u8, 0x64u8, 0x20u8, 0x66u8, 0x6fu8, 0x72u8, 0x6du8, 0x61u8, 0x74u8, 0x20u8]
}

/// Builds the bytes of ``unsupported format ``.
pub fn unsupported_pre_x() -> (r: Vec<u8>)
    ensures
        r@ == unsupported_pre(),
{
    let v: Vec<u8> = vec![0x75u8, 0x6eu8, 0x73u8, 0x75u8, 0x70u8, 0x70u8, 0x6fu8, 0x72u8, 0x74u8, 0x65u8, 0x64u8, 0x20u8, 0x66u8, 0x6fu8, 0x72u8, 0x6du8, 0x61u8, 0x74u8, 0x20u8];
    proof {
        assert(v@ =~= unsupported_pre());
    }
    v
}

/// The bytes of ``invalid distribution parameters``.
pub open spec fn bad_params_text() -> Seq<u8> {
    seq![0x69u8, 0x6eu8, 0x76u8, 0x61u8, 0x6cu8, 0x69u8, 0x64u8, 0x20u8, 0x64u8, 0x69u8, 0x73u8, 0x74u8, 0x72u8, 0x69u8, 0x62u8, 0x75u8, 0x74u8, 0x69u8, 0x6fu8, 0x6eu8, 0x20u8, 0x70u8, 0x61u8, 0x72u8, 0x61u8, 0x6du8, 0x65u8, 0x74u8, 0x65u8, 0x72u8, 0x73u8]
}

/// Builds the bytes of ``invalid distribution parameters``.
pub fn bad_params_text_x() -> (r: Vec<u8>)
    ensures
        r@ == bad_params_text(),
{
    let v: Vec<u8> = vec![0x69u8, 0x6eu8, 0x76u8, 0x61u8, 0x6cu8, 0x69u8, 0x64u8, 0x20u8, 0x64u8, 0x69u8, 0x73u8, 0x74u8, 0x72u8, 0x69u8, 0x62u8, 0x75u8, 0x74u8, 0x69u8, 0x6fu8, 0x6eu8, 0x20u8, 0x70u8, 0x61u8, 0x72u8, 0x61u8, 0x6du8, 0x65u8, 0x74u8, 0x65u8, 0x72u8, 0x73u8];
    proof {
        assert(v@ =~= bad_params_text());
    }
    v
}

/// The bytes of ``request body is not well-formed JSON``.
pub open spec fn syntax_text() -> Seq<u8> {
    seq![0x72u8, 0x65u8, 0x71u8, 0x75u8, 0x65u8, 0x73u8, 0x74u8, 0x20u8, 0x62u8, 0x6fu8, 0x64u8, 0x79u8, 0x20u8, 0x69u8, 0x73u8, 0x20u8, 0x6eu8, 0x6fu8, 0x74u8, 0x20u8, 0x77u8, 0x65u8, 0x6cu8, 0x6cu8, 0x2du8, 0x66u8, 0x6fu8, 0x72u8, 0x6du8, 0x65u8, 0x64u8, 0x20u8, 0x4au8, 0x53u8, 0x4fu8, 0x4eu8]
}

/// Builds the bytes of ``request body is not well-formed JSON``.
pub fn syntax_text_x() -> (r: Vec<u8>)
    ensures
        r@ == syntax_text(),
{
    let v: Vec<u8> = vec![0x72u8, 0x65u8, 0x71u8, 0x75u8, 0x65u8, 0x73u8, 0x74u8, 0x20u8, 0x62u8, 0x6fu8, 0x64u8, 0x79u8, 0x20u8, 0x69u8, 0x73u8, 0x20u8, 0x6eu8, 0x6fu8, 0x74u8, 0x20u8, 0x77u8, 0x65u8, 0x6cu8, 0x6cu8, 0x2du8, 0x66u8, 0x6fu8, 0x72u8, 0x6du8, 0x65u8, 0x64u8, 0x20u8, 0x4au8, 0x53u8, 0x4fu8, 0x4eu8];
    proof {
        assert(v@ =~= syntax_text());
    }
    v
}

/// The bytes of ``request body is not a JSON object``.
pub open spec fn not_object_text() -> Seq<u8> {
    seq![0x72u8, 0x65u8, 0x71u8, 0x75u8, 0x65u8, 0x73u8, 0x74u8, 0x20u8, 0x62u8, 0x6fu8, 0x64u8, 0x79u8, 0x20u8, 0x69u8, 0x73u8, 0x20u8, 0x6eu8, 0x6fu8, 0x74u8, 0x20u8, 0x61u8, 0x20u8, 0x4au8, 0x53u8, 0x4fu8, 0x4eu8, 0x20u8, 0x6fu8, 0x62u8, 0x6au8, 0x65u8, 0x63u8, 0x74u8]
}

/// Builds the bytes of ``request body is not a JSON object``.
pub fn not_object_text_x() -> (r: Vec<u8>)
    ensures
        r@ == not_object_text(),
{
    let v: Vec<u8> = vec![0x72u8, 0x65u8, 0x71u8, 0x75u8, 0x65u8, 0x73u8, 0x74u8, 0x20u8, 0x62u8, 0x6fu8, 0x64u8, 0x79u8, 0x20u8, 0x69u8, 0x73u8, 0x20u8, 0x6eu8, 0x6fu8, 0x74u8, 0x20u8, 0x61u8, 0x20u8, 0x4au8, 0x53u8, 0x4fu8, 0x4eu8, 0x20u8, 0x6fu8, 0x62u8, 0x6au8, 0x65u8, 0x63u8, 0x74u8];
    proof {
        assert(v@ =~= not_object_text());
    }
    v
}

/// The bytes of ``field `distribution` is not a string``.
pub open spec fn bad_dist_text() -> Seq<u8> {
    seq![0x66u8, 0x69u8, 0x65u8, 0x6cu8, 0x64u8, 0x20u8, 0x60u8, 0x64u8, 0x69u8, 0x73u8, 0x74u8, 0x72u8, 0x69u8, 0x62u8, 0x75u8, 0x74u8, 0x69u8, 0x6fu8, 0x6eu8, 0x60u8, 0x20u8, 0x69u8, 0x73u8, 0x20u8, 0x6eu8, 0x6fu8, 0x74u8, 0x20u8, 0x61u8, 0x20u8, 0x73u8, 0x74u8, 0x72u8, 0x69u8, 0x6eu8, 0x67u8]
}

/// Builds the bytes of ``field `distribution` is not a string``.
pub fn bad_dist_text_x() -> (r: Vec<u8>)
    ensures
        r@ == bad_dist_text(),
{
    let v: Vec<u8> = vec![0x66u8, 0x69u8, 0x65u8, 0x6cu8, 0x64u8, 0x20u8, 0x60u8, 0x64u8, 0x69u8, 0x73u8, 0x74u8, 0x72u8, 0x69u8, 0x62u8, 0x75u8, 0x74u8, 0x69u8, 0x6fu8, 0x6eu8, 0x60u8, 0x20u8, 0x69u8, 0x73u8, 0x20u8, 0x6eu8, 0x6fu8, 0x74u8, 0x20u8, 0x61u8, 0x20u8, 0x73u8, 0x74u8, 0x72u8, 0x69u8, 0x6eu8, 0x67u8];
    proof {
        assert(v@ =~= bad_dist_text());
    }
    v
}

/// The bytes of ``field `parameters` is not an object``.
pub open spec fn bad_params_field_text() -> Seq<u8> {
    seq![0x66u8, 0x69u8, 0x65u8, 0x6cu8, 0x64u8, 0x20u8, 0x60u8, 0x70u8, 0x61u8, 0x72u8, 0x61u8, 0x6du8, 0x65u8, 0x74u8, 0x65u8, 0x72u8, 0x73u8, 0x60u8, 0x20u8, 0x69u8, 0x73u8, 0x20u8, 0x6eu8, 0x6fu8, 0x74u8, 0x20u8, 0x61u8, 0x6eu8, 0x20u8, 0x6fu8, 0x62u8, 0x6au8, 0x65u8, 0x63u8, 0x74u8]
}

/// Builds the bytes of ``field `parameters` is not an object``.
pub fn bad_params_field_text_x() -> (r: Vec<u8>)
    ensures
        r@ == bad_params_field_text(),
{
    let v: Vec<u8> = vec![0x66u8, 0x69u8, 0x65u8, 0x6cu8, 0x64u8, 0x20u8, 0x60u8, 0x70u8, 0x61u8, 0x72u8, 0x61u8, 0x6du8, 0x65u8, 0x74u8, 0x65u8, 0x72u8, 0x73u8, 0x60u8, 0x20u8, 0x69u8, 0x73u8, 0x20u8, 0x6eu8, 0x6fu8, 0x74u8, 0x20u8, 0x61u8, 0x6eu8, 0x20u8, 0x6fu8, 0x62u8, 0x6au8, 0x65u8, 0x63u8, 0x74u8];
    proof {
        assert(v@ =~= bad_params_field_text());
    }
    v
}

/// The bytes of ``missing field ```.
pub open spec fn missing_pre() -> Seq<u8> {
    seq![0x6du8, 0x69u8, 0x73u8, 0x73u8, 0x69u8, 0x6eu8, 0x67u8, 0x20u8, 0x66u8, 0x69u8, 0x65u8, 0x6cu8, 0x64u8, 0x20u8, 0x60u8]
}

/// Builds the bytes of ``missing field ```.
pub fn missing_pre_x() -> (r: Vec<u8>)
    ensures
        r@ == missing_pre(),
{
    let v: Vec<u8> = vec![0x6du8, 0x69u8, 0x73u8, 0x73u8, 0x69u8, 0x6eu8, 0x67u8, 0x20u8, 0x66u8, 0x69u8, 0x65u8, 0x6cu8, 0x64u8, 0x20u8, 0x60u8];
    proof {
        assert(v@ =~= missing_pre());
    }
    v
}

/// The bytes of `````.
pub open spec fn tick_text() -> Seq<u8> {
    seq![0x60u8]
}

/// The bytes of ``unknown variant ```.
pub open spec fn unknown_pre() -> Seq<u8> {
    seq![0x75u8, 0x6eu8, 0x6bu8, 0x6eu8, 0x6fu8, 0x77u8, 0x6eu8, 0x20u8, 0x76u8, 0x61u8, 0x72u8, 0x69u8, 0x61u8, 0x6eu8, 0x74u8, 0x20u8, 0x60u8]
}

/// Builds the bytes of ``unknown variant ```.
pub fn unknown_pre_x() -> (r: Vec<u8>)
    ensures
        r@ == unknown_pre(),
{
    let v: Vec<u8> = vec![0x75u8, 0x6eu8, 0x6bu8, 0x6eu8, 0x6fu8, 0x77u8, 0x6eu8, 0x20u8, 0x76u8, 0x61u8, 0x72u8, 0x69u8, 0x61u8, 0x6eu8, 0x74u8, 0x20u8, 0x60u8];
    proof {
        assert(v@ =~= unknown_pre());
    }
    v
}

/// The bytes of ```, expected one of `uniform`, `normal`, `bernoulli```.
pub open spec fn unknown_post() -> Seq<u8> {
    seq![0x60u8, 0x2cu8, 0x20u8, 0x65u8, 0x78u8, 0x70u8, 0x65u8, 0x63u8, 0x74u8, 0x65u8, 0x64u8, 0x20u8, 0x6fu8, 0x6eu8, 0x65u8, 0x20u8, 0x6fu8, 0x66u8, 0x20u8, 0x60u8, 0x75u8, 0x6eu8, 0x69u8, 0x66u8, 0x6fu8, 0x72u8, 0x6du8, 0x60u8, 0x2cu8, 0x20u8, 0x60u8, 0x6eu8, 0x6fu8, 0x72u8, 0x6du8, 0x61u8, 0x6cu8, 0x60u8, 0x2cu8, 0x20u8, 0x60u8, 0x62u8, 0x65u8, 0x72u8, 0x6eu8, 0x6fu8, 0x75u8, 0x6cu8, 0x6cu8, 0x69u8, 0x60u8]
}

/// Builds the bytes of ```, expected one of `uniform`, `normal`, `bernoulli```.
pub fn unknown_post_x() -> (r: Vec<u8>)
    ensures
        r@ == unknown_post(),
{
    let v: Vec<u8> = vec![0x60u8, 0x2cu8, 0x20u8, 0x65u8, 0x78u8, 0x70u8, 0x65u8, 0x63u8, 0x74u8, 0x65u8, 0x64u8, 0x20u8, 0x6fu8, 0x6eu8, 0x65u8, 0x20u8, 0x6fu8, 0x66u8, 0x20u8, 0x60u8, 0x75u8, 0x6eu8, 0x69u8, 0x66u8, 0x6fu8, 0x72u8, 0x6du8, 0x60u8, 0x2cu8, 0x20u8, 0x60u8, 0x6eu8, 0x6fu8, 0x72u8, 0x6du8, 0x61u8, 0x6cu8, 0x60u8, 0x2cu8, 0x20u8, 0x60u8, 0x62u8, 0x65u8, 0x72u8, 0x6eu8, 0x6fu8, 0x75u8, 0x6cu8, 0x6cu8, 0x69u8, 0x60u8];
    proof {
        assert(v@ =~= unknown_post());
    }
    v
}

/// The bytes of ``invalid value for field ```.
pub open spec fn invalid_pre() -> Seq<u8> {
    seq![0x69u8, 0x6eu8, 0x76u8, 0x61u8, 0x6cu8, 0x69u8, 0x64u8, 0x20u8, 0x76u8, 0x61u8, 0x6cu8, 0x75u8, 0x65u8, 0x20u8, 0x66u8, 0x6fu8, 0x72u8, 0x20u8, 0x66u8, 0x69u8, 0x65u8, 0x6cu8, 0x64u8, 0x20u8, 0x60u8]
}

/// Builds the bytes of ``invalid value for field ```.
pub fn invalid_pre_x() -> (r: Vec<u8>)
    ensures
        r@ == invalid_pre(),
{
    let v: Vec<u8> = vec![0x69u8, 0x6eu8, 0x76u8, 0x61u8, 0x6cu8, 0x69u8, 0x64u8, 0x20u8, 0x76u8, 0x61u8, 0x6cu8, 0x75u8, 0x65u8, 0x20u8, 0x66u8, 0x6fu8, 0x72u8, 0x20u8, 0x66u8, 0x69u8, 0x65u8, 0x6cu8, 0x64u8, 0x20u8, 0x60u8];
    proof {
        assert(v@ =~= invalid_pre());
    }
    v
}

/// Appends all of `src`.
pub fn push_bytes(out: &mut Vec<u8>, src: &Vec<u8>)
    ensures
        final(out)@ == old(out)@ + src@,
{
    let mut k: usize = 0;
    while k < src.len()
        invariant
            k <= src.len(),
            out@ == old(out)@ + src@.subrange(0, k as int),
        decreases src.len() - k,
    {
        out.push(src[k]);
        k = k + 1;
        proof {
            assert(out@ =~= old(out)@ + src@.subrange(0, k as int));
        }
    }
    proof {
        assert(src@.subrange(0, src@.len() as int) =~= src@);
    }
}

/// The response body around a value text: `{"value":` the text `}`.
pub open spec fn value_body(vt: Seq<u8>) -> Seq<u8> {
    value_pre() + vt + seq![0x7du8]
}

/// Builds the response body for a value text.
pub fn render_value_body(vt: &Vec<u8>) -> (r: Vec<u8>)
    ensures
        r@ == value_body(vt@),
{
    let mut out = value_pre_x();
    push_bytes(&mut out, vt);
    out.push(0x7d);
    proof {
        assert(out@ =~= value_body(vt@));
    }
    out
}

/// The message naming an unsupported output format.
pub open spec fn unsupported_text(fmt: Seq<u8>) -> Seq<u8> {
    unsupported_pre() + fmt
}

/// Builds the message naming an unsupported output format.
pub fn unsupported_msg(fmt: &Vec<u8>) -> (r: Vec<u8>)
    ensures
        r@ == unsupported_text(fmt@),
{
    let mut out = unsupported_pre_x();
    push_bytes(&mut out, fmt);
    out
}

/// The key of a parameter field, for messages.
pub open spec fn fname(f: FieldName) -> Seq<u8> {
    match f {
        FieldName::Start => start_key(),
        FieldName::End => end_key(),
        FieldName::Mean => mean_key(),
        FieldName::StdDev => std_dev_key(),
        FieldName::P => p_key(),
    }
}

/// Builds the key of a parameter field.
fn fname_x(f: FieldName) -> (r: Vec<u8>)
    ensures
        r@ == fname(f),
{
    match f {
        FieldName::Start => start_key_x(),
        FieldName::End => end_key_x(),
        FieldName::Mean => mean_key_x(),
        FieldName::StdDev => std_dev_key_x(),
        FieldName::P => p_key_x(),
    }
}

/// The client-visible description of a decoding error.
pub open spec fn spec_err_text(e: ErrV) -> Seq<u8> {
    match e {
        ErrV::Syntax => syntax_text(),
        ErrV::NotObject => not_object_text(),
        ErrV::MissingDistribution => missing_pre() + crate::request::dist_key() + tick_text(),
        ErrV::BadDistribution => bad_dist_text(),
        ErrV::UnknownTag(t) => unknown_pre() + t + unknown_post(),
        ErrV::MissingParameters => missing_pre() + crate::request::params_key() + tick_text(),
        ErrV::BadParameters => bad_params_field_text(),
        ErrV::MissingField(f) => missing_pre() + fname(f) + tick_text(),
        ErrV::BadField(f) => invalid_pre() + fname(f) + tick_text(),
    }
}

/// Renders the description of a decoding error.
pub fn err_text(e: &ParseErr) -> (r: Vec<u8>)
    ensures
        r@ == spec_err_text(e@),
{
    match e {
        ParseErr::Syntax => syntax_text_x(),
        ParseErr::NotObject => not_object_text_x(),
        ParseErr::MissingDistribution => {
            let mut out = missing_pre_x();
            let k = crate::request::dist_key_x();
            push_bytes(&mut out, &k);
            out.push(0x60);
            proof {
                assert(out@ =~= spec_err_text(e@));
            }
            out
        },
        ParseErr::BadDistribution => bad_dist_text_x(),
        ParseErr::UnknownTag(t) => {
            let mut out = unknown_pre_x();
            push_bytes(&mut out, t);
            let post = unknown_post_x();
            push_bytes(&mut out, &post);
            out
        },
        ParseErr::MissingParameters => {
            let mut out = missing_pre_x();
            let k = crate::request::params_key_x();
            push_bytes(&mut out, &k);
            out.push(0x60);
            proof {
                assert(out@ =~= spec_err_text(e@));
            }
            out
        },
        ParseErr::BadParameters => bad_params_field_text_x(),
        ParseErr::MissingField(f) => {
            let mut out = missing_pre_x();
            let k = fname_x(*f);
            push_bytes(&mut out, &k);
            out.push(0x60);
            proof {
                assert(out@ =~= spec_err_text(e@));
            }
            out
        },
        ParseErr::BadField(f) => {
            let mut out = invalid_pre_x();
            let k = fname_x(*f);
            push_bytes(&mut out, &k);
            out.push(0x60);
            proof {
                assert(out@ =~= spec_err_text(e@));
            }
            out
        },
    }
}

/// A rejected request always carries a reason: no client-visible error
/// description is empty, whatever the error and whatever format was asked
/// for.
pub proof fn lemma_error_bodies_nonempty(e: ErrV, fmt: Seq<u8>)
    ensures
        spec_err_text(e).len() > 0,
        unsupported_text(fmt).len() > 0,
        bad_params_text().len() > 0,
{
    match e {
        ErrV::Syntax => {},
        ErrV::NotObject => {},
        ErrV::MissingDistribution => {},
        ErrV::BadDistribution => {},
        ErrV::UnknownTag(t) => {},
        ErrV::MissingParameters => {},
        ErrV::BadParameters => {},
        ErrV::MissingField(f) => {},
        ErrV::BadField(f) => {},
    }
}

/// Encodes a sampled value's text in the requested output format. Only
/// `json` is supported; any other format is refused, naming the format.
pub fn serialize(format: &Vec<u8>, value_text: &Vec<u8>) -> (r: Result<Vec<u8>, Vec<u8>>)
    ensures
        format@ == json_fmt() ==> r is Ok && r.unwrap()@ == value_body(value_text@),
        format@ != json_fmt() ==> r is Err && r.unwrap_err()@ == unsupported_text(format@),
{
    let jf = json_fmt_x();
    if crate::request::bytes_eq(format, &jf) {
        Ok(render_value_body(value_text))
    } else {
        Err(unsupported_msg(format))
    }
}

} // verus!
