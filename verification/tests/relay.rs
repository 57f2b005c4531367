use gens_relay::relay::{relay_url, RelayError};

#[test]
fn the_token_goes_into_the_query() {
    assert_eq!(
        relay_url("wss://relay.example.com", "abc").unwrap(),
        "wss://relay.example.com/?token=abc"
    );
    assert_eq!(
        relay_url("wss://relay.example.com/ws?v=1", "a-b_c.d*").unwrap(),
        "wss://relay.example.com/ws?v=1&token=a-b_c.d*"
    );
    assert_eq!(
        relay_url("ws://127.0.0.1:9000/ws?#top", "t").unwrap(),
        "ws://127.0.0.1:9000/ws?token=t#top"
    );
}

#[test]
fn the_token_is_encoded_as_in_a_form() {
    assert_eq!(
        relay_url("wss://relay.example.com", "a b&c=é+/").unwrap(),
        "wss://relay.example.com/?token=a+b%26c%3D%C3%A9%2B%2F"
    );
    assert_eq!(relay_url("wss://relay.example.com", "").unwrap(), "wss://relay.example.com/?token=");
}

#[test]
fn a_domain_that_is_no_address_is_refused() {
    for (domain, want) in [
        ("relay.example.com", "relative URL without a base"),
        ("", "relative URL without a base"),
        ("wss://", "empty host"),
        ("wss://relay:port", "invalid port number"),
    ] {
        match relay_url(domain, "t") {
            Err(RelayError::Invalid { reason }) => assert_eq!(reason, want),
            other => panic!("{:?}", other),
        }
    }
}

#[test]
fn every_byte_is_encoded_as_in_a_form() {
    let mut want = "wss://relay.example.com/?token=".to_string();
    let mut token = String::new();
    for b in 0u8..128 {
        let c = b as char;
        token.push(c);
        if c.is_ascii_alphanumeric() || "*-._".contains(c) {
            want.push(c);
        } else if c == ' ' {
            want.push('+');
        } else {
            want.push_str(&format!("%{:02X}", b));
        }
    }
    assert_eq!(relay_url("wss://relay.example.com", &token).unwrap(), want);
}

#[test]
fn a_token_is_refused_where_a_fragment_would_begin_too_far_on() {
    // Each of these bytes takes three characters in a query.
    let token = String::from_utf8(vec![0; u32::MAX as usize / 3]).unwrap();
    assert!(matches!(
        relay_url("wss://relay.example.com/#top", &token),
        Err(RelayError::TooLong)
    ));
}
