use async_ws::http::{
    is_upgrade_request, upgrade_challenge_response, upgrade_response, UpgradeRequest,
};

fn header(name: &str, value: &str) -> (Vec<u8>, Vec<u8>) {
    (name.as_bytes().to_vec(), value.as_bytes().to_vec())
}

fn sample_request() -> UpgradeRequest {
    UpgradeRequest {
        method: b"GET".to_vec(),
        headers: vec![
            header("Host", "server.example.com"),
            header("Upgrade", "websocket"),
            header("Connection", "Upgrade"),
            header("Sec-WebSocket-Key", "dGhlIHNhbXBsZSBub25jZQ=="),
            header("Sec-WebSocket-Version", "13"),
        ],
    }
}

#[test]
fn challenge_response() {
    assert_eq!(
        upgrade_challenge_response(&b"dGhlIHNhbXBsZSBub25jZQ==".to_vec()),
        b"s3pPLMBiTxaQ9kYGzzhZRbK+xOo=".to_vec()
    );
}

#[test]
fn recognizes_an_upgrade_request() {
    assert!(is_upgrade_request(&sample_request()));
}

#[test]
fn header_names_are_case_insensitive() {
    let mut req = sample_request();
    req.headers = vec![
        header("upgrade", "WebSocket"),
        header("CONNECTION", "keep-alive, Upgrade"),
        header("sec-websocket-key", "dGhlIHNhbXBsZSBub25jZQ=="),
        header("Sec-WebSocket-Version", "13"),
    ];
    assert!(is_upgrade_request(&req));
}

#[test]
fn refuses_non_upgrade_requests() {
    let mut req = sample_request();
    req.method = b"POST".to_vec();
    assert!(!is_upgrade_request(&req));

    let mut req = sample_request();
    req.headers.retain(|h| h.0 != b"Connection".to_vec());
    assert!(!is_upgrade_request(&req));

    let mut req = sample_request();
    req.headers[2] = header("Connection", "keep-alive");
    assert!(!is_upgrade_request(&req));

    let mut req = sample_request();
    req.headers[1] = header("Upgrade", "h2c");
    assert!(!is_upgrade_request(&req));

    let mut req = sample_request();
    req.headers[4] = header("Sec-WebSocket-Version", "8");
    assert!(!is_upgrade_request(&req));

    let mut req = sample_request();
    req.headers.retain(|h| h.0 != b"Sec-WebSocket-Key".to_vec());
    assert!(!is_upgrade_request(&req));
}

#[test]
fn connection_header_token_must_stand_alone() {
    // "Upgrade" must be a whole token of the comma/space separated list.
    let mut req = sample_request();
    req.headers[2] = header("Connection", "Upgraded");
    assert!(!is_upgrade_request(&req));

    let mut req = sample_request();
    req.headers[2] = header("Connection", "keep-alive,upgrade");
    assert!(is_upgrade_request(&req));
}

#[test]
fn upgrade_response_carries_the_accept_token() {
    let resp = upgrade_response(&sample_request()).expect("the sample request upgrades");
    assert_eq!(resp.accept, b"s3pPLMBiTxaQ9kYGzzhZRbK+xOo=".to_vec());

    let mut req = sample_request();
    req.method = b"POST".to_vec();
    assert!(upgrade_response(&req).is_none());
}
