use rng_service::config::{parse_addr, resolve_address, Addr};

fn pa(s: &[u8]) -> Option<Addr> {
    parse_addr(&s.to_vec())
}

#[test]
fn address_grammar() {
    assert_eq!(
        pa(b"127.0.0.1:8080"),
        Some(Addr { o1: 127, o2: 0, o3: 0, o4: 1, port: 8080 })
    );
    assert_eq!(
        pa(b"0.0.0.0:80"),
        Some(Addr { o1: 0, o2: 0, o3: 0, o4: 0, port: 80 })
    );
    assert_eq!(
        pa(b"255.255.255.255:65535"),
        Some(Addr { o1: 255, o2: 255, o3: 255, o4: 255, port: 65535 })
    );
    assert_eq!(pa(b"256.0.0.1:80"), None);
    assert_eq!(pa(b"01.2.3.4:80"), None);
    assert_eq!(pa(b"1.2.3.4:65536"), None);
    assert_eq!(pa(b"1.2.3.4"), None);
    assert_eq!(pa(b"1.2.3:80"), None);
    assert_eq!(pa(b"1.2.3.4:80x"), None);
    assert_eq!(pa(b"[::1]:80"), None);
    assert_eq!(pa(b""), None);
    // Leading zeros are fine in the port, not in an octet.
    assert_eq!(pa(b"1.2.3.4:0080").map(|a| a.port), Some(80));
}

#[test]
fn flag_wins_over_invalid_environment() {
    let a = resolve_address(
        Some(b"10.0.0.2:9000".to_vec()),
        Some(b"not an address".to_vec()),
        None,
    );
    assert_eq!(a, Addr { o1: 10, o2: 0, o3: 0, o4: 2, port: 9000 });
}

#[test]
fn environment_used_when_no_flag_or_file() {
    let a = resolve_address(None, Some(b"192.168.1.5:81".to_vec()), None);
    assert_eq!(a, Addr { o1: 192, o2: 168, o3: 1, o4: 5, port: 81 });
}

#[test]
fn invalid_flag_falls_through_to_environment() {
    let a = resolve_address(
        Some(b"bogus".to_vec()),
        Some(b"192.168.1.5:81".to_vec()),
        None,
    );
    assert_eq!(a, Addr { o1: 192, o2: 168, o3: 1, o4: 5, port: 81 });
}

#[test]
fn file_value_before_default() {
    let a = resolve_address(None, None, Some(b"172.16.0.1:3000".to_vec()));
    assert_eq!(a, Addr { o1: 172, o2: 16, o3: 0, o4: 1, port: 3000 });
}

#[test]
fn default_when_nothing_resolves() {
    let a = resolve_address(None, Some(b"nope".to_vec()), Some(b"also nope".to_vec()));
    assert_eq!(a, Addr { o1: 127, o2: 0, o3: 0, o4: 1, port: 8080 });
}
