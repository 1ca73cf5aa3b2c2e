//! The control protocol.
use openrok::protocol::{
    body_fits, decode_body, encode_body, ControlMessage, CreateTunnelRequest, DecodeBodyError,
    TunnelProtocol, _protocol_example,
};

#[test]
fn round_trips_binary_body() {
    let body = vec![0_u8, 159, 255, 10];
    let encoded = encode_body(&body);
    let decoded = decode_body(&encoded).expect("body should decode");

    assert_eq!(decoded, body);
}

#[test]
fn bodies_travel_in_standard_base64() {
    assert_eq!(encode_body(b""), "");
    assert_eq!(encode_body(b"f"), "Zg==");
    assert_eq!(encode_body(b"fo"), "Zm8=");
    assert_eq!(encode_body(b"foo"), "Zm9v");
    assert_eq!(encode_body(&[251, 255]), "+/8=");
    assert_eq!(decode_body("Zm9v"), Ok(b"foo".to_vec()));
}

#[test]
fn undecodable_bodies_are_told_apart() {
    assert_eq!(decode_body("Zm9v!"), Err(DecodeBodyError::InvalidByte(4, b'!')));
    assert_eq!(decode_body("Zm9vZ"), Err(DecodeBodyError::InvalidLength(5)));
    assert_eq!(decode_body("Zh=="), Err(DecodeBodyError::InvalidLastSymbol(1, b'h')));
    assert_eq!(decode_body("Zg"), Err(DecodeBodyError::InvalidPadding));
    assert!(decode_body("-_8=").is_err());
}

#[test]
fn every_byte_survives_the_body_encoding() {
    let body: Vec<u8> = (0..=255).collect();
    for len in 0..body.len() {
        assert_eq!(decode_body(&encode_body(&body[..len])), Ok(body[..len].to_vec()));
    }
}

#[test]
fn only_absurd_bodies_do_not_fit() {
    assert!(body_fits(0));
    assert!(body_fits(1_048_576));
    assert!(!body_fits(usize::MAX));
    let most = isize::MAX as usize / 4 * 3;
    assert!(body_fits(most));
    assert!(!body_fits(most + 1));
}

#[test]
fn example_asks_for_any_name() {
    assert_eq!(
        _protocol_example(),
        ControlMessage::CreateTunnel(CreateTunnelRequest {
            protocol: TunnelProtocol::Http,
            port: 3000,
            subdomain: None,
        })
    );
}
