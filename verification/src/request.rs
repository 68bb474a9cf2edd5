//! Decoding of a distribution request from a JSON document.
//!
//! A request body is a JSON object with a `distribution` field naming one
//! of the three supported distributions and a `parameters` object holding
//! that distribution's parameters. When a key appears more than once in an
//! object, the first occurrence is the one that counts; unknown keys are
//! ignored.

use vstd::prelude::*;
use crate::json::JVal;
use crate::json::is_digit;
use crate::json::parse_value;
use crate::json::parse_elems;
use crate::json::parse_members;
use crate::json::parse_doc;
use crate::json::ws_end;
use crate::json::ws_skip;
use crate::json::scan_string;
use crate::json::skip_value;

verus! {

/// The bytes of `"distribution"`.
pub open spec fn dist_key() -> Seq<u8> {
    seq![0x64u8, 0x69u8, 0x73u8, 0x74u8, 0x72u8, 0x69u8, 0x62u8, 0x75u8, 0x74u8, 0x69u8, 0x6fu8, 0x6eu8]
}

/// Builds the bytes of `"distribution"`.
pub fn dist_key_x() -> (r: Vec<u8>)
    ensures
        r@ == dist_key(),
{
    let v: Vec<u8> = vec![0x64u8, 0x69u8, 0x73u8, 0x74u8, 0x72u8, 0x69u8, 0x62u8, 0x75u8, 0x74u8, 0x69u8, 0x6fu8, 0x6eu8];
    proof {
        assert(v@ =~= dist_key());
    }
    v
}

/// The bytes of `"parameters"`.
pub open spec fn params_key() -> Seq<u8> {
    seq![0x70u8, 0x61u8, 0x72u8, 0x61u8, 0x6du8, 0x65u8, 0x74u8, 0x65u8, 0x72u8, 0x73u8]
}

/// Builds the bytes of `"parameters"`.
pub fn params_key_x() -> (r: Vec<u8>)
    ensures
        r@ == params_key(),
{
    let v: Vec<u8> = vec![0x70u8, 0x61u8, 0x72u8, 0x61u8, 0x6du8, 0x65u8, 0x74u8, 0x65u8, 0x72u8, 0x73u8];
    proof {
        assert(v@ =~= params_key());
    }
    v
}

/// The bytes of `"start"`.
pub open spec fn start_key() -> Seq<u8> {
    seq![0x73u8, 0x74u8, 0x61u8, 0x72u8, 0x74u8]
}

/// Builds the bytes of `"start"`.
pub fn start_key_x() -> (r: Vec<u8>)
    ensures
        r@ == start_key(),
{
    let v: Vec<u8> = vec![0x73u8, 0x74u8, 0x61u8, 0x72u8, 0x74u8];
    proof {
        assert(v@ =~= start_key());
    }
    v
}

/// The bytes of `"end"`.
pub open spec fn end_key() -> Seq<u8> {
    seq![0x65u8, 0x6eu8, 0x64u8]
}

/// Builds the bytes of `"end"`.
pub fn end_key_x() -> (r: Vec<u8>)
    ensures
        r@ == end_key(),
{
    let v: Vec<u8> = vec![0x65u8, 0x6eu8, 0x64u8];
    proof {
        assert(v@ =~= end_key());
    }
    v
}

/// The bytes of `"mean"`.
pub open spec fn mean_key() -> Seq<u8> {
    seq![0x6du8, 0x65u8, 0x61u8, 0x6eu8]
}

/// Builds the bytes of `"mean"`.
pub fn mean_key_x() -> (r: Vec<u8>)
    ensures
        r@ == mean_key(),
{
    let v: Vec<u8> = vec![0x6du8, 0x65u8, 0x61u8, 0x6eu8];
    proof {
        assert(v@ =~= mean_key());
    }
    v
}

/// The bytes of `"std_dev"`.
pub open spec fn std_dev_key() -> Seq<u8> {
    seq![0x73u8, 0x74u8, 0x64u8, 0x5fu8, 0x64u8, 0x65u8, 0x76u8]
}

/// Builds the bytes of `"std_dev"`.
pub fn std_dev_key_x() -> (r: Vec<u8>)
    ensures
        r@ == std_dev_key(),
{
    let v: Vec<u8> = vec![0x73u8, 0x74u8, 0x64u8, 0x5fu8, 0x64u8, 0x65u8, 0x76u8];
    proof {
        assert(v@ =~= std_dev_key());
    }
    v
}

/// The bytes of `"p"`.
pub open spec fn p_key() -> Seq<u8> {
    seq![0x70u8]
}

/// Builds the bytes of `"p"`.
pub fn p_key_x() -> (r: Vec<u8>)
    ensures
        r@ == p_key(),
{
    let v: Vec<u8> = vec![0x70u8];
    proof {
        assert(v@ =~= p_key());
    }
    v
}

/// The bytes of `"uniform"`.
pub open spec fn uniform_tag() -> Seq<u8> {
    seq![0x75u8, 0x6eu8, 0x69u8, 0x66u8, 0x6fu8, 0x72u8, 0x6du8]
}

/// Builds the bytes of `"uniform"`.
pub fn uniform_tag_x() -> (r: Vec<u8>)
    ensures
        r@ == uniform_tag(),
{
    let v: Vec<u8> = vec![0x75u8, 0x6eu8, 0x69u8, 0x66u8, 0x6fu8, 0x72u8, 0x6du8];
    proof {
        assert(v@ =~= uniform_tag());
    }
    v
}

/// The bytes of `"normal"`.
pub open spec fn normal_tag() -> Seq<u8> {
    seq![0x6eu8, 0x6fu8, 0x72u8, 0x6du8, 0x61u8, 0x6cu8]
}

/// Builds the bytes of `"normal"`.
pub fn normal_tag_x() -> (r: Vec<u8>)
    ensures
        r@ == normal_tag(),
{
    let v: Vec<u8> = vec![0x6eu8, 0x6fu8, 0x72u8, 0x6du8, 0x61u8, 0x6cu8];
    proof {
        assert(v@ =~= normal_tag());
    }
    v
}

/// The bytes of `"bernoulli"`.
pub open spec fn bernoulli_tag() -> Seq<u8> {
    seq![0x62u8, 0x65u8, 0x72u8, 0x6eu8, 0x6fu8, 0x75u8, 0x6cu8, 0x6cu8, 0x69u8]
}

/// Builds the bytes of `"bernoulli"`.
pub fn bernoulli_tag_x() -> (r: Vec<u8>)
    ensures
        r@ == bernoulli_tag(),
{
    let v: Vec<u8> = vec![0x62u8, 0x65u8, 0x72u8, 0x6eu8, 0x6fu8, 0x75u8, 0x6cu8, 0x6cu8, 0x69u8];
    proof {
        assert(v@ =~= bernoulli_tag());
    }
    v
}

/// The value of a sequence of decimal digits.
pub open spec fn dec_val(ds: Seq<u8>) -> int
    decreases ds.len(),
{
    if ds.len() == 0 {
        0
    } else {
        dec_val(ds.drop_last()) * 10 + (ds.last() - 0x30)
    }
}

pub open spec fn all_digits(ds: Seq<u8>) -> bool {
    forall|k: int| 0 <= k < ds.len() ==> is_digit(ds[k])
}

/// The value of a number token when it is a plain integer (no fraction or
/// exponent) that fits an `i32`.
pub open spec fn num_as_i32(t: Seq<u8>) -> Option<i32> {
    let neg = t.len() > 0 && t[0] == 0x2d;
    let ds = if neg {
        t.subrange(1, t.len() as int)
    } else {
        t
    };
    if ds.len() > 0 && all_digits(ds) {
        let v = if neg {
            -dec_val(ds)
        } else {
            dec_val(ds)
        };
        if -0x80000000 <= v <= 0x7fffffff {
            Some(v as i32)
        } else {
            None
        }
    } else {
        None
    }
}

/// Reads a number token as an `i32`; the executable twin of `num_as_i32`.
pub fn token_as_i32(t: &Vec<u8>) -> (r: Option<i32>)
    ensures
        r == num_as_i32(t@),
{
    let neg = t.len() > 0 && t[0] == 0x2d;
    let start: usize = if neg {
        1
    } else {
        0
    };
    if start >= t.len() {
        return None;
    }
    let ghost ds = if neg {
        t@.subrange(1, t@.len() as int)
    } else {
        t@
    };
    let mut k = start;
    // acc follows the digit value, saturating at 2^32 once it can no
    // longer be an i32 either way.
    let mut acc: i64 = 0;
    while k < t.len()
        invariant
            start <= k <= t.len(),
            start as int == if neg { 1int } else { 0int },
            neg ==> t@.len() > 0 && t@[0] == 0x2d,
            !neg ==> (t@.len() == 0 || t@[0] != 0x2d),
            ds == if neg { t@.subrange(1, t@.len() as int) } else { t@ },
            forall|q: int| start <= q < k ==> is_digit(t@[q]),
            (0 <= acc <= 0xFFFFFFFF && acc == dec_val(t@.subrange(start as int, k as int)))
                || (acc == 0x100000000 && dec_val(t@.subrange(start as int, k as int)) >= 0x100000000),
        decreases t.len() - k,
    {
        if !(0x30 <= t[k] && t[k] <= 0x39) {
            proof {
                assert(ds[k as int - start as int] == t@[k as int]);
                assert(!all_digits(ds));
            }
            return None;
        }
        let d = (t[k] - 0x30) as i64;
        proof {
            assert(t@.subrange(start as int, k as int + 1).drop_last() =~= t@.subrange(
                start as int,
                k as int,
            ));
            assert(t@.subrange(start as int, k as int + 1).last() == t@[k as int]);
        }
        if acc >= 0x100000000 {
            acc = 0x100000000;
        } else {
            acc = acc * 10 + d;
            if acc > 0xFFFFFFFF {
                acc = 0x100000000;
            }
        }
        k = k + 1;
    }
    proof {
        assert(t@.subrange(start as int, t@.len() as int) =~= ds);
        assert(all_digits(ds)) by {
            assert(forall|q: int| 0 <= q < ds.len() ==> ds[q] == t@[q + start]);
        }
    }
    if acc >= 0x100000000 {
        return None;
    }
    if neg {
        if acc <= 0x80000000 {
            Some((-acc) as i32)
        } else {
            None
        }
    } else {
        if acc <= 0x7fffffff {
            Some(acc as i32)
        } else {
            None
        }
    }
}

/// Copies `s[a..e]` out into a fresh vector.
pub fn copy_range(s: &Vec<u8>, a: usize, e: usize) -> (r: Vec<u8>)
    requires
        a <= e <= s.len(),
    ensures
        r@ == s@.subrange(a as int, e as int),
{
    let mut out: Vec<u8> = Vec::new();
    let mut k = a;
    while k < e
        invariant
            a <= k <= e <= s.len(),
            out@ == s@.subrange(a as int, k as int),
        decreases e - k,
    {
        out.push(s[k]);
        k = k + 1;
        proof {
            assert(out@ =~= s@.subrange(a as int, k as int));
        }
    }
    out
}

/// Compares two byte vectors for equality of contents.
pub fn bytes_eq(a: &Vec<u8>, b: &Vec<u8>) -> (r: bool)
    ensures
        r <==> a@ == b@,
{
    if a.len() != b.len() {
        return false;
    }
    let mut k: usize = 0;
    while k < a.len()
        invariant
            k <= a.len(),
            a.len() == b.len(),
            forall|q: int| 0 <= q < k ==> a@[q] == b@[q],
        decreases a.len() - k,
    {
        if a[k] != b[k] {
            return false;
        }
        k = k + 1;
    }
    proof {
        assert(a@ =~= b@);
    }
    true
}

/// The value of the first member with the given key, if any.
pub open spec fn lookup_first(ms: Seq<(Seq<u8>, JVal)>, key: Seq<u8>) -> Option<JVal>
    decreases ms.len(),
{
    if ms.len() == 0 {
        None
    } else if ms[0].0 == key {
        Some(ms[0].1)
    } else {
        lookup_first(ms.drop_first(), key)
    }
}

/// How appending one member changes a first-match lookup.
pub proof fn lemma_lookup_push(ms: Seq<(Seq<u8>, JVal)>, key: Seq<u8>, m: (Seq<u8>, JVal))
    ensures
        lookup_first(ms.push(m), key) == match lookup_first(ms, key) {
            Some(v) => Some(v),
            None => if m.0 == key {
                Some(m.1)
            } else {
                None
            },
        },
    decreases ms.len(),
{
    if ms.len() == 0 {
        assert(ms.push(m)[0] == m);
        assert(ms.push(m).drop_first() =~= Seq::<(Seq<u8>, JVal)>::empty());
        assert(lookup_first(Seq::<(Seq<u8>, JVal)>::empty(), key) is None);
    } else {
        assert(ms.push(m)[0] == ms[0]);
        assert(ms.push(m).drop_first() =~= ms.drop_first().push(m));
        lemma_lookup_push(ms.drop_first(), key, m);
    }
}

/// One distribution request, decoded. Number-valued parameters of the
/// continuous distributions are kept as their number tokens; floating
/// point stays outside the verified core.
pub enum RngRequest {
    Uniform { start: i32, end: i32 },
    Normal { mean: Vec<u8>, std_dev: Vec<u8> },
    Bernoulli { p: Vec<u8> },
}

/// The specification view of `RngRequest`.
pub enum ReqV {
    Uniform { start: i32, end: i32 },
    Normal { mean: Seq<u8>, std_dev: Seq<u8> },
    Bernoulli { p: Seq<u8> },
}

impl View for RngRequest {
    type V = ReqV;

    open spec fn view(&self) -> ReqV {
        match self {
            RngRequest::Uniform { start, end } => ReqV::Uniform { start: *start, end: *end },
            RngRequest::Normal { mean, std_dev } => ReqV::Normal {
                mean: mean@,
                std_dev: std_dev@,
            },
            RngRequest::Bernoulli { p } => ReqV::Bernoulli { p: p@ },
        }
    }
}

/// A parameter field of one of the distributions.
#[derive(Clone, Copy)]
pub enum FieldName {
    Start,
    End,
    Mean,
    StdDev,
    P,
}

/// Why a request body was rejected.
pub enum ParseErr {
    /// The body is not well-formed JSON.
    Syntax,
    /// The body is valid JSON but not an object.
    NotObject,
    MissingDistribution,
    /// The `distribution` field is not a string.
    BadDistribution,
    /// The `distribution` string names no supported distribution.
    UnknownTag(Vec<u8>),
    MissingParameters,
    /// The `parameters` field is not an object.
    BadParameters,
    MissingField(FieldName),
    /// The field is present but not a number of the required kind.
    BadField(FieldName),
}

/// The specification view of `ParseErr`.
pub enum ErrV {
    Syntax,
    NotObject,
    MissingDistribution,
    BadDistribution,
    UnknownTag(Seq<u8>),
    MissingParameters,
    BadParameters,
    MissingField(FieldName),
    BadField(FieldName),
}

impl View for ParseErr {
    type V = ErrV;

    open spec fn view(&self) -> ErrV {
        match self {
            ParseErr::Syntax => ErrV::Syntax,
            ParseErr::NotObject => ErrV::NotObject,
            ParseErr::MissingDistribution => ErrV::MissingDistribution,
            ParseErr::BadDistribution => ErrV::BadDistribution,
            ParseErr::UnknownTag(t) => ErrV::UnknownTag(t@),
            ParseErr::MissingParameters => ErrV::MissingParameters,
            ParseErr::BadParameters => ErrV::BadParameters,
            ParseErr::MissingField(f) => ErrV::MissingField(*f),
            ParseErr::BadField(f) => ErrV::BadField(*f),
        }
    }
}

/// What an object says about one parameter key.
pub enum FState {
    Missing,
    NotNum,
    Num(Seq<u8>),
}

/// The state of one parameter key as the decoder buffers it.
pub enum FBuf {
    Missing,
    NotNum,
    Num(Vec<u8>),
}

pub open spec fn fbuf_inv(f: &FBuf, st: FState) -> bool {
    match f {
        FBuf::Missing => st == FState::Missing,
        FBuf::NotNum => st == FState::NotNum,
        FBuf::Num(v) => st == FState::Num(v@),
    }
}

/// The first value of `key` in `ps`, classified as a number token or not.
pub open spec fn fstate(ps: Seq<(Seq<u8>, JVal)>, key: Seq<u8>) -> FState {
    match lookup_first(ps, key) {
        None => FState::Missing,
        Some(v) => match v {
            JVal::Num(t) => FState::Num(t),
            _ => FState::NotNum,
        },
    }
}

/// The buffered parameter fields of a request.
pub struct ParamsBuf {
    pub start: FBuf,
    pub end: FBuf,
    pub mean: FBuf,
    pub std_dev: FBuf,
    pub p: FBuf,
}

pub open spec fn pbuf_inv(b: &ParamsBuf, ps: Seq<(Seq<u8>, JVal)>) -> bool {
    &&& fbuf_inv(&b.start, fstate(ps, start_key()))
    &&& fbuf_inv(&b.end, fstate(ps, end_key()))
    &&& fbuf_inv(&b.mean, fstate(ps, mean_key()))
    &&& fbuf_inv(&b.std_dev, fstate(ps, std_dev_key()))
    &&& fbuf_inv(&b.p, fstate(ps, p_key()))
}

/// The `distribution` field of an object: absent, present but not a
/// string, or the tag string.
pub open spec fn dist_state(ms: Seq<(Seq<u8>, JVal)>) -> Option<Option<Seq<u8>>> {
    match lookup_first(ms, dist_key()) {
        None => None,
        Some(v) => match v {
            JVal::Str(t) => Some(Some(t)),
            _ => Some(None),
        },
    }
}

/// The `parameters` field of an object: absent, present but not an
/// object, or its member list.
pub open spec fn params_of(ms: Seq<(Seq<u8>, JVal)>) -> Option<Option<Seq<(Seq<u8>, JVal)>>> {
    match lookup_first(ms, params_key()) {
        None => None,
        Some(v) => match v {
            JVal::Obj(ps) => Some(Some(ps)),
            _ => Some(None),
        },
    }
}

pub open spec fn field_i32(ps: Seq<(Seq<u8>, JVal)>, key: Seq<u8>, f: FieldName) -> Result<
    i32,
    ErrV,
> {
    match fstate(ps, key) {
        FState::Missing => Err(ErrV::MissingField(f)),
        FState::NotNum => Err(ErrV::BadField(f)),
        FState::Num(t) => match num_as_i32(t) {
            None => Err(ErrV::BadField(f)),
            Some(v) => Ok(v),
        },
    }
}

pub open spec fn field_num(ps: Seq<(Seq<u8>, JVal)>, key: Seq<u8>, f: FieldName) -> Result<
    Seq<u8>,
    ErrV,
> {
    match fstate(ps, key) {
        FState::Missing => Err(ErrV::MissingField(f)),
        FState::NotNum => Err(ErrV::BadField(f)),
        FState::Num(t) => Ok(t),
    }
}

pub open spec fn decode_uniform(ps: Seq<(Seq<u8>, JVal)>) -> Result<ReqV, ErrV> {
    match field_i32(ps, start_key(), FieldName::Start) {
        Err(e) => Err(e),
        Ok(a) => match field_i32(ps, end_key(), FieldName::End) {
            Err(e) => Err(e),
            Ok(b) => Ok(ReqV::Uniform { start: a, end: b }),
        },
    }
}

pub open spec fn decode_normal(ps: Seq<(Seq<u8>, JVal)>) -> Result<ReqV, ErrV> {
    match field_num(ps, mean_key(), FieldName::Mean) {
        Err(e) => Err(e),
        Ok(m) => match field_num(ps, std_dev_key(), FieldName::StdDev) {
            Err(e) => Err(e),
            Ok(sd) => Ok(ReqV::Normal { mean: m, std_dev: sd }),
        },
    }
}

pub open spec fn decode_bernoulli(ps: Seq<(Seq<u8>, JVal)>) -> Result<ReqV, ErrV> {
    match field_num(ps, p_key(), FieldName::P) {
        Err(e) => Err(e),
        Ok(t) => Ok(ReqV::Bernoulli { p: t }),
    }
}

/// Decodes the members of the top-level object.
pub open spec fn decode_obj(ms: Seq<(Seq<u8>, JVal)>) -> Result<ReqV, ErrV> {
    match dist_state(ms) {
        None => Err(ErrV::MissingDistribution),
        Some(None) => Err(ErrV::BadDistribution),
        Some(Some(tag)) => if tag == uniform_tag() || tag == normal_tag() || tag
            == bernoulli_tag() {
            match params_of(ms) {
                None => Err(ErrV::MissingParameters),
                Some(None) => Err(ErrV::BadParameters),
                Some(Some(ps)) => if tag == uniform_tag() {
                    decode_uniform(ps)
                } else if tag == normal_tag() {
                    decode_normal(ps)
                } else {
                    decode_bernoulli(ps)
                },
            }
        } else {
            Err(ErrV::UnknownTag(tag))
        },
    }
}

/// What decoding a request body yields: the request, or the reason it was
/// rejected.
pub open spec fn spec_decode(s: Seq<u8>) -> Result<ReqV, ErrV> {
    match parse_doc(s) {
        None => Err(ErrV::Syntax),
        Some(doc) => match doc {
            JVal::Obj(ms) => decode_obj(ms),
            _ => Err(ErrV::NotObject),
        },
    }
}

/// `parse_elems` only ever yields arrays.
proof fn lemma_elems_arr(s: Seq<u8>, i: int, d: int, acc: Seq<JVal>, first: bool)
    ensures
        match parse_elems(s, i, d, acc, first) {
            Some(p) => p.0 is Arr,
            None => true,
        },
    decreases d, s.len() - i, 1int,
{
    if d <= 0 || !(0 <= i < s.len()) {
    } else if first && s[i] == 0x5d {
    } else {
        match parse_value(s, i, d - 1) {
            Some(p) => {
                let k = ws_end(s, p.1);
                if 0 <= k < s.len() && s[k] == 0x2c {
                    lemma_elems_arr(
                        s,
                        crate::json::clip(i + 1, s.len() as int, ws_end(s, k + 1)),
                        d,
                        acc.push(p.0),
                        false,
                    );
                }
            },
            None => {},
        }
    }
}

/// `parse_members` only ever yields objects.
proof fn lemma_members_obj(s: Seq<u8>, i: int, d: int, acc: Seq<(Seq<u8>, JVal)>, first: bool)
    ensures
        match parse_members(s, i, d, acc, first) {
            Some(p) => p.0 is Obj,
            None => true,
        },
    decreases d, s.len() - i, 1int,
{
    if d <= 0 || !(0 <= i < s.len()) {
    } else if first && s[i] == 0x7d {
    } else if s[i] == 0x22 {
        match crate::json::str_end(s, i + 1, Seq::empty()) {
            Some(kp) => {
                let k = ws_end(s, kp.1);
                if 0 <= k < s.len() && s[k] == 0x3a {
                    match parse_value(s, ws_end(s, k + 1), d - 1) {
                        Some(vp) => {
                            let n = ws_end(s, vp.1);
                            if 0 <= n < s.len() && s[n] == 0x2c {
                                lemma_members_obj(
                                    s,
                                    crate::json::clip(i + 1, s.len() as int, ws_end(s, n + 1)),
                                    d,
                                    acc.push((kp.0, vp.0)),
                                    false,
                                );
                            }
                        },
                        None => {},
                    }
                }
            },
            None => {},
        }
    }
}

/// A member value, classified as far as the decoder cares.
pub enum VClass {
    VStr(Vec<u8>),
    VNum(Vec<u8>),
    VObj(ParamsBuf),
    VOther,
}

pub open spec fn class_matches(c: &VClass, v: JVal) -> bool {
    match c {
        VClass::VStr(t) => match v {
            JVal::Str(u) => t@ == u,
            _ => false,
        },
        VClass::VNum(t) => match v {
            JVal::Num(u) => t@ == u,
            _ => false,
        },
        VClass::VObj(b) => match v {
            JVal::Obj(ps) => pbuf_inv(b, ps),
            _ => false,
        },
        VClass::VOther => match v {
            JVal::Null => true,
            JVal::Bool(_) => true,
            JVal::Arr(_) => true,
            _ => false,
        },
    }
}

/// Parses one JSON value and classifies it: a string's decoded text, a
/// number's token, an object's buffered parameter fields, or none of
/// those. The executable twin of `parse_value` for member values.
fn parse_classified(s: &Vec<u8>, i: usize, d: u32) -> (r: Option<(VClass, usize)>)
    requires
        i <= s.len(),
    ensures
        match parse_value(s@, i as int, d as int) {
            Some(p) => r is Some && r.unwrap().1 as int == p.1 && i < r.unwrap().1 <= s.len()
                && class_matches(&r.unwrap().0, p.0),
            None => r is None,
        },
    decreases d,
{
    if d == 0 || i >= s.len() {
        return None;
    }
    let b = s[i];
    if b == 0x7b {
        let k_start = start_key_x();
        let k_end = end_key_x();
        let k_mean = mean_key_x();
        let k_std = std_dev_key_x();
        let k_p = p_key_x();
        let mut buf = ParamsBuf {
            start: FBuf::Missing,
            end: FBuf::Missing,
            mean: FBuf::Missing,
            std_dev: FBuf::Missing,
            p: FBuf::Missing,
        };
        let j0 = ws_skip(s, i + 1);
        let mut j = j0;
        let ghost mut acc: Seq<(Seq<u8>, JVal)> = Seq::empty();
        let mut first = true;
        loop
            invariant
                i < s.len(),
                i + 1 <= j <= s.len(),
                1 <= d,
                s@[i as int] == 0x7b,
                parse_value(s@, i as int, d as int) == parse_members(
                    s@,
                    j as int,
                    d as int,
                    acc,
                    first,
                ),
                pbuf_inv(&buf, acc),
                k_start@ == start_key(),
                k_end@ == end_key(),
                k_mean@ == mean_key(),
                k_std@ == std_dev_key(),
                k_p@ == p_key(),
            decreases s.len() - j,
        {
            if j >= s.len() {
                return None;
            }
            if first && s[j] == 0x7d {
                return Some((VClass::VObj(buf), j + 1));
            }
            if s[j] != 0x22 {
                return None;
            }
            match scan_string(s, j + 1) {
                None => {
                    return None;
                },
                Some((key, j2)) => {
                    let j3 = ws_skip(s, j2);
                    if j3 >= s.len() || s[j3] != 0x3a {
                        return None;
                    }
                    let j4 = ws_skip(s, j3 + 1);
                    match parse_classified(s, j4, d - 1) {
                        None => {
                            return None;
                        },
                        Some((cls, m)) => {
                            let ghost v = parse_value(s@, j4 as int, d as int - 1).unwrap().0;
                            let ghost mem = (key@, v);
                            proof {
                                lemma_lookup_push(acc, start_key(), mem);
                                lemma_lookup_push(acc, end_key(), mem);
                                lemma_lookup_push(acc, mean_key(), mem);
                                lemma_lookup_push(acc, std_dev_key(), mem);
                                lemma_lookup_push(acc, p_key(), mem);
                            }
                            let fb = match cls {
                                VClass::VNum(tok) => FBuf::Num(tok),
                                _ => FBuf::NotNum,
                            };
                            if bytes_eq(&key, &k_start) {
                                if matches!(buf.start, FBuf::Missing) {
                                    buf.start = fb;
                                }
                            } else if bytes_eq(&key, &k_end) {
                                if matches!(buf.end, FBuf::Missing) {
                                    buf.end = fb;
                                }
                            } else if bytes_eq(&key, &k_mean) {
                                if matches!(buf.mean, FBuf::Missing) {
                                    buf.mean = fb;
                                }
                            } else if bytes_eq(&key, &k_std) {
                                if matches!(buf.std_dev, FBuf::Missing) {
                                    buf.std_dev = fb;
                                }
                            } else if bytes_eq(&key, &k_p) {
                                if matches!(buf.p, FBuf::Missing) {
                                    buf.p = fb;
                                }
                            }
                            proof {
                                acc = acc.push(mem);
                            }
                            let n = ws_skip(s, m);
                            if n < s.len() && s[n] == 0x7d {
                                return Some((VClass::VObj(buf), n + 1));
                            } else if n < s.len() && s[n] == 0x2c {
                                let jn = ws_skip(s, n + 1);
                                j = jn;
                                first = false;
                            } else {
                                return None;
                            }
                        },
                    }
                },
            }
        }
    } else if b == 0x5b {
        match skip_value(s, i, d) {
            None => None,
            Some(e) => {
                proof {
                    lemma_elems_arr(
                        s@,
                        crate::json::clip(i as int + 1, s@.len() as int, ws_end(s@, i as int + 1)),
                        d as int,
                        Seq::empty(),
                        true,
                    );
                }
                Some((VClass::VOther, e))
            },
        }
    } else if b == 0x22 {
        match scan_string(s, i + 1) {
            Some(p) => Some((VClass::VStr(p.0), p.1)),
            None => None,
        }
    } else if b == 0x74 {
        if s.len() - i >= 4 && s[i + 1] == 0x72 && s[i + 2] == 0x75 && s[i + 3] == 0x65 {
            Some((VClass::VOther, i + 4))
        } else {
            None
        }
    } else if b == 0x66 {
        if s.len() - i >= 5 && s[i + 1] == 0x61 && s[i + 2] == 0x6c && s[i + 3] == 0x73 && s[i + 4]
            == 0x65 {
            Some((VClass::VOther, i + 5))
        } else {
            None
        }
    } else if b == 0x6e {
        if s.len() - i >= 4 && s[i + 1] == 0x75 && s[i + 2] == 0x6c && s[i + 3] == 0x6c {
            Some((VClass::VOther, i + 4))
        } else {
            None
        }
    } else if b == 0x2d || (0x30 <= b && b <= 0x39) {
        match crate::json::scan_number(s, i) {
            Some(e) => {
                let tok = copy_range(s, i, e);
                Some((VClass::VNum(tok), e))
            },
            None => None,
        }
    } else {
        None
    }
}

/// The decoder's view of the `distribution` sink against the members seen.
pub open spec fn dist_inv(dx: &Option<Option<Vec<u8>>>, ms: Seq<(Seq<u8>, JVal)>) -> bool {
    match dist_state(ms) {
        None => dx is None,
        Some(None) => match dx {
            Some(None) => true,
            _ => false,
        },
        Some(Some(tag)) => match dx {
            Some(Some(v)) => v@ == tag,
            _ => false,
        },
    }
}

/// The decoder's view of the `parameters` sink against the members seen.
pub open spec fn params_inv(px: &Option<Option<ParamsBuf>>, ms: Seq<(Seq<u8>, JVal)>) -> bool {
    match params_of(ms) {
        None => px is None,
        Some(None) => match px {
            Some(None) => true,
            _ => false,
        },
        Some(Some(ps)) => match px {
            Some(Some(b)) => pbuf_inv(b, ps),
            _ => false,
        },
    }
}

/// Turns the buffered fields of a complete top-level object into the
/// decoded request or its rejection.
fn finish(
    dist: Option<Option<Vec<u8>>>,
    params: Option<Option<ParamsBuf>>,
    Ghost(ms): Ghost<Seq<(Seq<u8>, JVal)>>,
) -> (r: Result<RngRequest, ParseErr>)
    requires
        dist_inv(&dist, ms),
        params_inv(&params, ms),
    ensures
        match r {
            Ok(q) => decode_obj(ms) == Ok::<ReqV, ErrV>(q@),
            Err(e) => decode_obj(ms) == Err::<ReqV, ErrV>(e@),
        },
{
    let k_uniform = uniform_tag_x();
    let k_normal = normal_tag_x();
    let k_bern = bernoulli_tag_x();
    match dist {
        None => Err(ParseErr::MissingDistribution),
        Some(None) => Err(ParseErr::BadDistribution),
        Some(Some(tag)) => {
            let is_u = bytes_eq(&tag, &k_uniform);
            let is_n = bytes_eq(&tag, &k_normal);
            let is_b = bytes_eq(&tag, &k_bern);
            if !(is_u || is_n || is_b) {
                return Err(ParseErr::UnknownTag(tag));
            }
            match params {
                None => Err(ParseErr::MissingParameters),
                Some(None) => Err(ParseErr::BadParameters),
                Some(Some(buf)) => {
                    if is_u {
                        match buf.start {
                            FBuf::Missing => Err(ParseErr::MissingField(FieldName::Start)),
                            FBuf::NotNum => Err(ParseErr::BadField(FieldName::Start)),
                            FBuf::Num(ts) => match token_as_i32(&ts) {
                                None => Err(ParseErr::BadField(FieldName::Start)),
                                Some(a) => match buf.end {
                                    FBuf::Missing => Err(ParseErr::MissingField(FieldName::End)),
                                    FBuf::NotNum => Err(ParseErr::BadField(FieldName::End)),
                                    FBuf::Num(te) => match token_as_i32(&te) {
                                        None => Err(ParseErr::BadField(FieldName::End)),
                                        Some(bv) => Ok(RngRequest::Uniform { start: a, end: bv }),
                                    },
                                },
                            },
                        }
                    } else if is_n {
                        match buf.mean {
                            FBuf::Missing => Err(ParseErr::MissingField(FieldName::Mean)),
                            FBuf::NotNum => Err(ParseErr::BadField(FieldName::Mean)),
                            FBuf::Num(tm) => match buf.std_dev {
                                FBuf::Missing => Err(ParseErr::MissingField(FieldName::StdDev)),
                                FBuf::NotNum => Err(ParseErr::BadField(FieldName::StdDev)),
                                FBuf::Num(tsd) => Ok(
                                    RngRequest::Normal { mean: tm, std_dev: tsd },
                                ),
                            },
                        }
                    } else {
                        match buf.p {
                            FBuf::Missing => Err(ParseErr::MissingField(FieldName::P)),
                            FBuf::NotNum => Err(ParseErr::BadField(FieldName::P)),
                            FBuf::Num(tp) => Ok(RngRequest::Bernoulli { p: tp }),
                        }
                    }
                },
            }
        },
    }
}

/// Decodes a request body into a distribution request, or says exactly
/// why it is rejected.
pub fn decode_request(body: &Vec<u8>) -> (r: Result<RngRequest, ParseErr>)
    ensures
        match r {
            Ok(q) => spec_decode(body@) == Ok::<ReqV, ErrV>(q@),
            Err(e) => spec_decode(body@) == Err::<ReqV, ErrV>(e@),
        },
{
    let t = ws_skip(body, 0);
    if t >= body.len() {
        return Err(ParseErr::Syntax);
    }
    if body[t] != 0x7b {
        match skip_value(body, t, 128) {
            None => {
                return Err(ParseErr::Syntax);
            },
            Some(e) => {
                let e2 = ws_skip(body, e);
                if e2 == body.len() {
                    proof {
                        if body@[t as int] == 0x5b {
                            lemma_elems_arr(
                                body@,
                                crate::json::clip(
                                    t as int + 1,
                                    body@.len() as int,
                                    ws_end(body@, t as int + 1),
                                ),
                                128,
                                Seq::empty(),
                                true,
                            );
                        }
                    }
                    return Err(ParseErr::NotObject);
                } else {
                    return Err(ParseErr::Syntax);
                }
            },
        }
    }
    let k_dist = dist_key_x();
    let k_params = params_key_x();
    let mut dist: Option<Option<Vec<u8>>> = None;
    let mut params: Option<Option<ParamsBuf>> = None;
    let j0 = ws_skip(body, t + 1);
    let mut j = j0;
    let ghost mut acc: Seq<(Seq<u8>, JVal)> = Seq::empty();
    let mut first = true;
    loop
        invariant
            t < body.len(),
            t as int == ws_end(body@, 0),
            t + 1 <= j <= body.len(),
            body@[t as int] == 0x7b,
            parse_value(body@, t as int, 128) == parse_members(body@, j as int, 128, acc, first),
            dist_inv(&dist, acc),
            params_inv(&params, acc),
            k_dist@ == dist_key(),
            k_params@ == params_key(),
        decreases body.len() - j,
    {
        if j >= body.len() {
            return Err(ParseErr::Syntax);
        }
        if first && body[j] == 0x7d {
            let e2 = ws_skip(body, j + 1);
            if e2 != body.len() {
                return Err(ParseErr::Syntax);
            }
            return finish(dist, params, Ghost(acc));
        }
        if body[j] != 0x22 {
            return Err(ParseErr::Syntax);
        }
        match scan_string(body, j + 1) {
            None => {
                return Err(ParseErr::Syntax);
            },
            Some((key, j2)) => {
                let j3 = ws_skip(body, j2);
                if j3 >= body.len() || body[j3] != 0x3a {
                    return Err(ParseErr::Syntax);
                }
                let j4 = ws_skip(body, j3 + 1);
                match parse_classified(body, j4, 127) {
                    None => {
                        return Err(ParseErr::Syntax);
                    },
                    Some((cls, m)) => {
                        let ghost v = parse_value(body@, j4 as int, 127).unwrap().0;
                        let ghost mem = (key@, v);
                        proof {
                            lemma_lookup_push(acc, dist_key(), mem);
                            lemma_lookup_push(acc, params_key(), mem);
                        }
                        if bytes_eq(&key, &k_dist) {
                            if matches!(dist, None) {
                                dist = match cls {
                                    VClass::VStr(tv) => Some(Some(tv)),
                                    _ => Some(None),
                                };
                            }
                        } else if bytes_eq(&key, &k_params) {
                            if matches!(params, None) {
                                params = match cls {
                                    VClass::VObj(bu) => Some(Some(bu)),
                                    _ => Some(None),
                                };
                            }
                        }
                        proof {
                            acc = acc.push(mem);
                        }
                        let n = ws_skip(body, m);
                        if n < body.len() && body[n] == 0x7d {
                            let e2 = ws_skip(body, n + 1);
                            if e2 != body.len() {
                                return Err(ParseErr::Syntax);
                            }
                            return finish(dist, params, Ghost(acc));
                        } else if n < body.len() && body[n] == 0x2c {
                            let jn = ws_skip(body, n + 1);
                            j = jn;
                            first = false;
                        } else {
                            return Err(ParseErr::Syntax);
                        }
                    },
                }
            },
        }
    }
}

} // verus!
