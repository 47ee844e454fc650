//! Bodies, headers and payload classification, exercised at runtime.

use http_service::body::{Body, ByteSource};
use http_service::gateway::{gateway_body_of_bytes, GatewayBody};
use http_service::message::Headers;
use http_service::utf8::validate_utf8;

#[test]
fn round_trip_from_bytes() {
    let bytes = b"any byte buffer at all \x00\xff\x80".to_vec();
    let mut body = Body::from_bytes(bytes.clone());
    let drained = body.drain_to_buffer().unwrap();
    assert_eq!(drained, bytes);
}

#[test]
fn second_drain_yields_empty() {
    let mut body = Body::from_bytes(b"only once".to_vec());
    let first = body.drain_to_buffer().unwrap();
    assert_eq!(first, b"only once".to_vec());
    let second = body.drain_to_buffer().unwrap();
    assert!(second.is_empty());
}

#[test]
fn empty_body_signals_end_idempotently() {
    let mut body = Body::empty();
    assert!(matches!(body.pull(), Ok(None)));
    assert!(matches!(body.pull(), Ok(None)));
    assert!(body.drain_to_buffer().unwrap().is_empty());
}

#[test]
fn source_chunks_come_in_order() {
    let source = ByteSource {
        chunks: vec![b"one ".to_vec(), b"two ".to_vec(), b"three".to_vec()],
        fails: false,
    };
    let mut body = Body::from_source(source);
    let drained = body.drain_to_buffer().unwrap();
    assert_eq!(drained, b"one two three".to_vec());
}

#[test]
fn pull_yields_chunks_then_end() {
    let source = ByteSource {
        chunks: vec![b"a".to_vec(), b"b".to_vec()],
        fails: false,
    };
    let mut body = Body::from_source(source);
    assert_eq!(body.pull().unwrap(), Some(b"a".to_vec()));
    assert_eq!(body.pull().unwrap(), Some(b"b".to_vec()));
    assert!(matches!(body.pull(), Ok(None)));
    assert!(matches!(body.pull(), Ok(None)));
}

#[test]
fn failing_source_fails_whole_drain() {
    let source = ByteSource {
        chunks: vec![b"read before the failure".to_vec()],
        fails: true,
    };
    let mut body = Body::from_source(source);
    // The whole operation fails; the bytes read before the failure are
    // discarded, no partial buffer comes back.
    assert!(body.drain_to_buffer().is_err());
    // Afterwards the body is drained: end-of-data, not another error.
    assert!(body.drain_to_buffer().unwrap().is_empty());
}

#[test]
fn headers_get_is_case_insensitive() {
    let mut headers = Headers::new();
    headers.append(b"Content-Type".to_vec(), b"text/plain".to_vec());
    assert_eq!(
        headers.get(b"content-TYPE").map(|v| v.clone()),
        Some(b"text/plain".to_vec())
    );
    assert_eq!(
        headers.get(b"CONTENT-TYPE").map(|v| v.clone()),
        Some(b"text/plain".to_vec())
    );
    assert!(headers.get(b"content-length").is_none());
}

#[test]
fn headers_repeated_keys_keep_insertion_order() {
    let mut headers = Headers::new();
    headers.append(b"set-cookie".to_vec(), b"first=1".to_vec());
    headers.append(b"Accept".to_vec(), b"*/*".to_vec());
    headers.append(b"Set-Cookie".to_vec(), b"second=2".to_vec());
    assert_eq!(headers.len(), 3);
    // `get` returns the first matching entry.
    assert_eq!(
        headers.get(b"SET-COOKIE").map(|v| v.clone()),
        Some(b"first=1".to_vec())
    );
    // `get_all` returns every match, in insertion order.
    assert_eq!(
        headers.get_all(b"set-COOKIE"),
        vec![b"first=1".to_vec(), b"second=2".to_vec()]
    );
}

#[test]
fn utf8_accepts_well_formed_text() {
    assert!(validate_utf8(b""));
    assert!(validate_utf8(b"plain ascii"));
    assert!(validate_utf8("héllo wörld".as_bytes()));
    assert!(validate_utf8("€ and \u{10FFFF} and \u{1F600}".as_bytes()));
}

#[test]
fn utf8_rejects_malformed_bytes() {
    // A lone continuation byte.
    assert!(!validate_utf8(&[0x80]));
    // An overlong encoding of '/'.
    assert!(!validate_utf8(&[0xC0, 0xAF]));
    // A surrogate half.
    assert!(!validate_utf8(&[0xED, 0xA0, 0x80]));
    // Above U+10FFFF.
    assert!(!validate_utf8(&[0xF4, 0x90, 0x80, 0x80]));
    // A truncated three-byte sequence.
    assert!(!validate_utf8(&[0xE2, 0x82]));
    // A byte that can begin nothing.
    assert!(!validate_utf8(&[0xFF]));
}

#[test]
fn gateway_classifies_payloads() {
    assert!(matches!(gateway_body_of_bytes(Vec::new()), GatewayBody::Empty));
    match gateway_body_of_bytes(b"textual".to_vec()) {
        GatewayBody::Text(v) => assert_eq!(v, b"textual".to_vec()),
        _ => panic!("a UTF-8 payload must classify as text"),
    }
    match gateway_body_of_bytes(vec![0xFF, 0xFE, 0x00]) {
        GatewayBody::Binary(v) => assert_eq!(v, vec![0xFF, 0xFE, 0x00]),
        _ => panic!("a non-UTF-8 payload must classify as binary"),
    }
}
