use duniter_node_manager::address::{parse_address, ConnectionParams, ParseError};

#[test]
fn parses_user_host_and_port() {
    let p = parse_address("alice@10.0.0.5:22").unwrap();
    assert_eq!(p.user, "alice");
    assert_eq!(p.host, [10, 0, 0, 5]);
    assert_eq!(p.port, 22);
}

#[test]
fn no_at_is_bad_format() {
    assert_eq!(parse_address("aliceNoAt").unwrap_err(), ParseError::BadFormat);
    assert_eq!(parse_address("").unwrap_err(), ParseError::BadFormat);
}

#[test]
fn two_ats_are_bad_format() {
    assert_eq!(parse_address("a@b@1.2.3.4:22").unwrap_err(), ParseError::BadFormat);
    assert_eq!(parse_address("@@").unwrap_err(), ParseError::BadFormat);
}

#[test]
fn address_round_trips() {
    let p = ConnectionParams { user: String::from("bob"), host: [192, 168, 1, 255], port: 65535 };
    let text = p.to_address();
    assert_eq!(text, "bob@192.168.1.255:65535");
    let q = parse_address(&text).unwrap();
    assert_eq!(q.user, "bob");
    assert_eq!(q.host, [192, 168, 1, 255]);
    assert_eq!(q.port, 65535);
}

#[test]
fn user_is_all_before_the_at() {
    let p = parse_address("@1.2.3.4:5").unwrap();
    assert_eq!(p.user, "");
    let p = parse_address("a b:c.d@1.2.3.4:5").unwrap();
    assert_eq!(p.user, "a b:c.d");
    assert_eq!(p.host, [1, 2, 3, 4]);
    assert_eq!(p.port, 5);
}

#[test]
fn extreme_octets_and_ports() {
    let p = parse_address("u@0.0.0.0:0").unwrap();
    assert_eq!((p.host, p.port), ([0, 0, 0, 0], 0));
    let p = parse_address("u@255.255.255.255:65535").unwrap();
    assert_eq!((p.host, p.port), ([255, 255, 255, 255], 65535));
    let p = parse_address("u@127.0.0.1:00022").unwrap();
    assert_eq!((p.host, p.port), ([127, 0, 0, 1], 22));
    let p = parse_address("u@9.99.199.249:0000000000000000000000065535").unwrap();
    assert_eq!((p.host, p.port), ([9, 99, 199, 249], 65535));
}

#[test]
fn bad_socket_addresses() {
    let bad = [
        "u@", "u@1.2.3.4", "u@1.2.3.4:", "u@1.2.3:22", "u@1.2.3.4.5:22", "u@256.1.1.1:22",
        "u@1.2.3.4:65536", "u@1.2.3.4:99999999999999999999", "u@01.2.3.4:22", "u@1.2.3.04:22",
        "u@1..3.4:22", "u@.1.2.3:22", "u@1.2.3.4:22 ", "u@ 1.2.3.4:22", "u@1.2.3.4:-1",
        "u@1.2.3.4:+1", "u@1.2.3.4:2 2", "u@1.2.3.4:22x", "u@example.org:22", "u@[::1]:22",
        "u@1.2.3.4;22", "u@1:2:3:4:22", "u@1000.2.3.4:22", "u@1.2.3.4:22:23", "u@00.0.0.0:1",
        "u@\u{661}.2.3.4:22",
    ];
    for s in bad {
        assert_eq!(parse_address(s).unwrap_err(), ParseError::BadAddress, "{:?}", s);
    }
}

#[test]
fn format_is_judged_before_the_address() {
    assert_eq!(parse_address("1.2.3.4:22").unwrap_err(), ParseError::BadFormat);
    assert_eq!(parse_address("a@b@c").unwrap_err(), ParseError::BadFormat);
    assert_eq!(parse_address("a@1.2.3.4:22@").unwrap_err(), ParseError::BadFormat);
}

#[test]
fn many_addresses_round_trip() {
    let mut x: u32 = 12345;
    for _ in 0..2000 {
        x = x.wrapping_mul(1_664_525).wrapping_add(1_013_904_223);
        let host = x.to_be_bytes();
        x = x.wrapping_mul(1_664_525).wrapping_add(1_013_904_223);
        let port = (x >> 16) as u16;
        let p = ConnectionParams { user: format!("user{}", x % 7), host, port };
        let q = parse_address(&p.to_address()).unwrap();
        assert_eq!(p, q);
    }
}
