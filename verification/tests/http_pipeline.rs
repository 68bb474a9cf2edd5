use rng_service::handler::handle;
use rng_service::request::RngRequest;
use rng_service::sample::handle_request;

fn post_random(query: &[u8], body: &[u8]) -> rng_service::handler::HttpResponse {
    handle(
        &b"POST".to_vec(),
        &b"/random".to_vec(),
        &query.to_vec(),
        &body.to_vec(),
    )
}

#[test]
fn other_paths_are_not_found() {
    let r = handle(
        &b"GET".to_vec(),
        &b"/random".to_vec(),
        &b"".to_vec(),
        &b"".to_vec(),
    );
    assert_eq!(r.status, 404);
    assert_eq!(r.body, b"Not Found".to_vec());

    let r = handle(
        &b"POST".to_vec(),
        &b"/other".to_vec(),
        &b"".to_vec(),
        &b"{}".to_vec(),
    );
    assert_eq!(r.status, 404);
    assert_eq!(r.body, b"Not Found".to_vec());

    let r = handle(
        &b"DELETE".to_vec(),
        &b"/".to_vec(),
        &b"".to_vec(),
        &b"".to_vec(),
    );
    assert_eq!(r.status, 404);
    assert_eq!(r.body, b"Not Found".to_vec());
}

#[test]
fn uniform_request_yields_value_in_range() {
    for _ in 0..50 {
        let r = post_random(
            b"",
            br#"{"distribution":"uniform","parameters":{"start":1,"end":10}}"#,
        );
        assert_eq!(r.status, 200);
        let v: serde_json::Value = serde_json::from_slice(&r.body).unwrap();
        let x = v["value"].as_f64().unwrap();
        assert!((1.0..10.0).contains(&x));
        assert_eq!(x, x.trunc());
    }
}

#[test]
fn unknown_distribution_is_unprocessable() {
    let r = post_random(b"", br#"{"distribution":"bogus"}"#);
    assert_eq!(r.status, 422);
    assert!(!r.body.is_empty());
}

#[test]
fn unsupported_format_is_unprocessable() {
    let r = post_random(
        b"format=xml",
        br#"{"distribution":"uniform","parameters":{"start":1,"end":10}}"#,
    );
    assert_eq!(r.status, 422);
    let text = String::from_utf8(r.body).unwrap();
    assert!(text.contains("xml"));
}

#[test]
fn bernoulli_zero_and_one_are_exact() {
    for _ in 0..200 {
        let r = post_random(b"", br#"{"distribution":"bernoulli","parameters":{"p":0}}"#);
        assert_eq!(r.status, 200);
        assert_eq!(r.body, br#"{"value":0.0}"#.to_vec());

        let r = post_random(b"", br#"{"distribution":"bernoulli","parameters":{"p":1}}"#);
        assert_eq!(r.status, 200);
        assert_eq!(r.body, br#"{"value":1.0}"#.to_vec());

        let r = post_random(b"", br#"{"distribution":"bernoulli","parameters":{"p":0.0}}"#);
        assert_eq!(r.status, 200);
        assert_eq!(r.body, br#"{"value":0.0}"#.to_vec());

        let r = post_random(b"", br#"{"distribution":"bernoulli","parameters":{"p":1.0}}"#);
        assert_eq!(r.status, 200);
        assert_eq!(r.body, br#"{"value":1.0}"#.to_vec());
    }
}

#[test]
fn uniform_samples_stay_in_bounds() {
    let req = RngRequest::Uniform { start: -5, end: 7 };
    for _ in 0..10000 {
        let text = handle_request(&req).unwrap();
        let v: f64 = String::from_utf8(text).unwrap().parse().unwrap();
        assert!(v >= -5.0 && v < 7.0);
        assert_eq!(v, v.trunc());
    }
}

#[test]
fn normal_request_yields_number() {
    for _ in 0..50 {
        let r = post_random(
            b"",
            br#"{"distribution":"normal","parameters":{"mean":10.0,"std_dev":2.0}}"#,
        );
        assert_eq!(r.status, 200);
        let v: serde_json::Value = serde_json::from_slice(&r.body).unwrap();
        assert!(v["value"].as_f64().is_some());
    }
}

#[test]
fn degenerate_parameters_are_unprocessable() {
    let r = post_random(
        b"",
        br#"{"distribution":"uniform","parameters":{"start":5,"end":5}}"#,
    );
    assert_eq!(r.status, 422);
    assert_eq!(r.body, b"invalid distribution parameters".to_vec());

    let r = post_random(b"", br#"{"distribution":"bernoulli","parameters":{"p":1.5}}"#);
    assert_eq!(r.status, 422);

    let r = post_random(b"", br#"{"distribution":"bernoulli","parameters":{"p":-0.5}}"#);
    assert_eq!(r.status, 422);
}

#[test]
fn body_error_wins_over_format_error() {
    let r = post_random(b"format=xml", br#"not json"#);
    assert_eq!(r.status, 422);
    let text = String::from_utf8(r.body).unwrap();
    assert!(!text.contains("xml"));
}

#[test]
fn explicit_json_format_is_accepted() {
    let r = post_random(
        b"format=json",
        br#"{"distribution":"uniform","parameters":{"start":1,"end":10}}"#,
    );
    assert_eq!(r.status, 200);
}

#[test]
fn malformed_query_defaults_to_json() {
    let r = post_random(
        b"%%%=&&",
        br#"{"distribution":"uniform","parameters":{"start":0,"end":2}}"#,
    );
    assert_eq!(r.status, 200);
}
