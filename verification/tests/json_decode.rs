use rng_service::request::{decode_request, ParseErr, RngRequest};
use rng_service::query::query_format;
use rng_service::respond::serialize;

fn dec(b: &[u8]) -> Result<RngRequest, ParseErr> {
    decode_request(&b.to_vec())
}

#[test]
fn valid_uniform_decodes() {
    let r = dec(br#" { "distribution" : "uniform" , "parameters" : { "start" : -3 , "end" : 10 } } "#);
    assert!(matches!(
        r,
        Ok(RngRequest::Uniform { start: -3, end: 10 })
    ));
}

#[test]
fn field_order_does_not_matter() {
    let r = dec(br#"{"parameters":{"end":10,"start":1},"distribution":"uniform"}"#);
    assert!(matches!(r, Ok(RngRequest::Uniform { start: 1, end: 10 })));
}

#[test]
fn escaped_keys_and_tags_decode() {
    let r = dec(br#"{"\u0064istribution":"unifo\u0072m","parameters":{"st\u0061rt":1,"end":2}}"#);
    assert!(matches!(r, Ok(RngRequest::Uniform { start: 1, end: 2 })));
}

#[test]
fn normal_keeps_number_tokens() {
    let r = dec(br#"{"distribution":"normal","parameters":{"mean":1.5e2,"std_dev":2}}"#);
    match r {
        Ok(RngRequest::Normal { mean, std_dev }) => {
            assert_eq!(mean, b"1.5e2".to_vec());
            assert_eq!(std_dev, b"2".to_vec());
        }
        other => panic!("unexpected: {:?}", other.is_ok()),
    }
}

#[test]
fn bernoulli_decodes() {
    let r = dec(br#"{"distribution":"bernoulli","parameters":{"p":0.25}}"#);
    match r {
        Ok(RngRequest::Bernoulli { p }) => assert_eq!(p, b"0.25".to_vec()),
        _ => panic!("expected bernoulli"),
    }
}

#[test]
fn first_duplicate_key_wins() {
    let r = dec(br#"{"distribution":"uniform","distribution":"bogus","parameters":{"start":1,"start":9,"end":2}}"#);
    assert!(matches!(r, Ok(RngRequest::Uniform { start: 1, end: 2 })));
}

#[test]
fn unknown_tag_is_rejected() {
    assert!(matches!(
        dec(br#"{"distribution":"bogus"}"#),
        Err(ParseErr::UnknownTag(_))
    ));
}

#[test]
fn missing_pieces_are_rejected() {
    assert!(matches!(dec(br#"{}"#), Err(ParseErr::MissingDistribution)));
    assert!(matches!(
        dec(br#"{"distribution":7}"#),
        Err(ParseErr::BadDistribution)
    ));
    assert!(matches!(
        dec(br#"{"distribution":"uniform"}"#),
        Err(ParseErr::MissingParameters)
    ));
    assert!(matches!(
        dec(br#"{"distribution":"uniform","parameters":3}"#),
        Err(ParseErr::BadParameters)
    ));
    assert!(matches!(
        dec(br#"{"distribution":"uniform","parameters":{"end":2}}"#),
        Err(ParseErr::MissingField(_))
    ));
    assert!(matches!(
        dec(br#"{"distribution":"bernoulli","parameters":{}}"#),
        Err(ParseErr::MissingField(_))
    ));
}

#[test]
fn wrong_field_types_are_rejected() {
    assert!(matches!(
        dec(br#"{"distribution":"uniform","parameters":{"start":"1","end":2}}"#),
        Err(ParseErr::BadField(_))
    ));
    assert!(matches!(
        dec(br#"{"distribution":"uniform","parameters":{"start":1.5,"end":2}}"#),
        Err(ParseErr::BadField(_))
    ));
    assert!(matches!(
        dec(br#"{"distribution":"uniform","parameters":{"start":1e2,"end":2}}"#),
        Err(ParseErr::BadField(_))
    ));
    assert!(matches!(
        dec(br#"{"distribution":"uniform","parameters":{"start":3000000000,"end":2}}"#),
        Err(ParseErr::BadField(_))
    ));
    assert!(matches!(
        dec(br#"{"distribution":"normal","parameters":{"mean":true,"std_dev":2}}"#),
        Err(ParseErr::BadField(_))
    ));
}

#[test]
fn extreme_but_valid_integers_decode() {
    let r = dec(br#"{"distribution":"uniform","parameters":{"start":-2147483648,"end":2147483647}}"#);
    assert!(matches!(
        r,
        Ok(RngRequest::Uniform {
            start: -2147483648,
            end: 2147483647
        })
    ));
    let r = dec(br#"{"distribution":"uniform","parameters":{"start":-0,"end":1}}"#);
    assert!(matches!(r, Ok(RngRequest::Uniform { start: 0, end: 1 })));
}

#[test]
fn extra_fields_are_ignored() {
    let r = dec(br#"{"x":[1,[2,{"y":null}]],"distribution":"uniform","parameters":{"start":1,"end":2,"z":"q"}}"#);
    assert!(matches!(r, Ok(RngRequest::Uniform { start: 1, end: 2 })));
}

#[test]
fn malformed_bodies_are_syntax_errors() {
    for b in [
        &b""[..],
        b"not json",
        b"{",
        br#"{"distribution":"uniform""#,
        br#"{"distribution":"uniform",}"#,
        br#"{"a":01}"#,
        br#"{"a":1,}"#,
        br#"{"a":"\ud800"}"#,
        br#"{"a":"\q"}"#,
        b"{\"a\":\"\xff\"}",
        b"{\"a\":\"raw\x01control\"}",
        br#"{"a":1} trailing"#,
        br#"{"a":+1}"#,
        br#"{"a":.5}"#,
        br#"{"a":1.}"#,
    ] {
        assert!(
            matches!(dec(b), Err(ParseErr::Syntax)),
            "expected syntax error for {:?}",
            b
        );
    }
}

#[test]
fn non_objects_are_rejected() {
    for b in [&b"3"[..], b"null", b"true", br#""s""#, b"[1,2]", b" [ ] "] {
        assert!(matches!(dec(b), Err(ParseErr::NotObject)));
    }
}

#[test]
fn well_formedness_agrees_with_serde_json() {
    // On inputs that carry the required fields, a syntax rejection here
    // must coincide with serde_json rejecting the document.
    let cases: &[&[u8]] = &[
        br#"{"distribution":"uniform","parameters":{"start":1,"end":2}}"#,
        br#"{"distribution":"uniform","parameters":{"start":1,"end":2},"x":[true,false,null]}"#,
        b"{\"distribution\":\"uniform\",\"parameters\":{\"start\":1,\"end\":2},\"x\":\"\xc3\xa9\\t\\n\"}",
        br#"{"distribution":"uniform","parameters":{"start":1,"end":2},"x":{"a":[{"b":1}]}}"#,
        br#"{"distribution":"uniform","parameters":{"start":1,"end":2},"x":1e-9}"#,
        br#"{"distribution":"uniform","parameters":{"start":1,"end":2},"x":[,]}"#,
        br#"{"distribution":"uniform","parameters":{"start":1,"end":2},"x":'a'}"#,
        br#"{"distribution":"uniform","parameters":{"start":1,"end":2},"x":00}"#,
        b"{\"distribution\":\"uniform\",\"parameters\":{\"start\":1,\"end\":2},\"x\":\"\xf0\x9f\x98\x80\"}",
    ];
    for b in cases {
        let mine_wf = !matches!(dec(b), Err(ParseErr::Syntax));
        let serde_wf = serde_json::from_slice::<serde_json::Value>(b).is_ok();
        assert_eq!(mine_wf, serde_wf, "disagreement on {:?}", b);
    }
}

#[test]
fn query_format_extraction() {
    let f = |q: &[u8]| query_format(&q.to_vec());
    assert_eq!(f(b""), b"json".to_vec());
    assert_eq!(f(b"a=1"), b"json".to_vec());
    assert_eq!(f(b"format=xml"), b"xml".to_vec());
    assert_eq!(f(b"a=1&format=html&format=x"), b"html".to_vec());
    assert_eq!(f(b"format=%78ml"), b"xml".to_vec());
    assert_eq!(f(b"%66ormat=a+b"), b"a b".to_vec());
    assert_eq!(f(b"format"), b"".to_vec());
    assert_eq!(f(b"format=%zz"), b"%zz".to_vec());
}

#[test]
fn serialize_only_supports_json() {
    let ok = serialize(&b"json".to_vec(), &b"3.0".to_vec());
    assert_eq!(ok.unwrap(), br#"{"value":3.0}"#.to_vec());
    let err = serialize(&b"xml".to_vec(), &b"3.0".to_vec());
    assert_eq!(err.unwrap_err(), b"unsupported format xml".to_vec());
}
