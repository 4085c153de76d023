use ignite_client::configuration::Configuration;
use ignite_client::error::ErrorKind;
use ignite_client::network::{
    begin_cache_request, begin_request, check_handshake_reply, check_reply, frame, frame_length,
    handshake_request, read_frame,
};
use ignite_client::Version;

#[test]
fn frame_round_trip() {
    let payload = vec![1u8, 2, 3, 250];
    let f = frame(&payload).unwrap();
    assert_eq!(f, vec![4, 0, 0, 0, 1, 2, 3, 250]);
    let mut stream = f.clone();
    stream.extend_from_slice(&[9, 9]);
    let (p, n) = read_frame(&stream, 0).unwrap();
    assert_eq!(p, payload);
    assert_eq!(n, 8);
    let (empty, n) = read_frame(&frame(&vec![]).unwrap(), 0).unwrap();
    assert!(empty.is_empty());
    assert_eq!(n, 4);
}

#[test]
fn truncated_frames_are_network_errors() {
    let f = frame(&vec![5u8; 10]).unwrap();
    for k in 0..f.len() {
        let cut = f[..k].to_vec();
        assert_eq!(read_frame(&cut, 0).unwrap_err().kind, ErrorKind::Network, "cut at {}", k);
    }
    assert_eq!(frame_length(&vec![1, 0]).unwrap_err().kind, ErrorKind::Network);
    assert_eq!(frame_length(&vec![0, 0, 0, 0x80]).unwrap_err().kind, ErrorKind::Network);
    assert_eq!(frame_length(&vec![7, 1, 0, 0]).unwrap(), 263);
}

#[test]
fn request_envelopes() {
    assert_eq!(begin_request(1050), vec![0x1a, 0x04, 0, 0, 0, 0, 0, 0, 0, 0]);
    assert_eq!(
        begin_cache_request(1000, -1),
        vec![0xe8, 0x03, 0, 0, 0, 0, 0, 0, 0, 0, 0xff, 0xff, 0xff, 0xff, 0]
    );
}

#[test]
fn reply_headers() {
    let mut ok = vec![0u8; 12];
    ok.push(1);
    assert_eq!(check_reply(&ok).unwrap(), 12);
    let mut failed = vec![0u8; 8];
    failed.extend_from_slice(&1000i32.to_le_bytes());
    failed.extend_from_slice(b"Cache already exists");
    let e = check_reply(&failed).unwrap_err();
    assert_eq!(e.kind, ErrorKind::ServerStatus(1000));
    assert_eq!(e.message, "Cache already exists");
    let mut other_id = vec![1u8];
    other_id.extend_from_slice(&[0u8; 11]);
    assert_eq!(check_reply(&other_id).unwrap_err().kind, ErrorKind::Codec);
    assert_eq!(check_reply(&vec![0u8; 5]).unwrap_err().kind, ErrorKind::Codec);
}

#[test]
fn handshake_without_credentials() {
    let r = handshake_request(&Configuration::default()).unwrap();
    assert_eq!(r, vec![1, 1, 0, 1, 0, 0, 0, 2]);
}

#[test]
fn handshake_with_credentials() {
    let c = Configuration::default().username("ig").password("pw");
    let r = handshake_request(&c).unwrap();
    assert_eq!(
        r,
        vec![1, 1, 0, 1, 0, 0, 0, 2, 9, 2, 0, 0, 0, b'i', b'g', 9, 2, 0, 0, 0, b'p', b'w']
    );
    let u = Configuration::default().username("ig");
    let r = handshake_request(&u).unwrap();
    assert_eq!(r, vec![1, 1, 0, 1, 0, 0, 0, 2, 9, 2, 0, 0, 0, b'i', b'g', 101]);
}

#[test]
fn handshake_replies() {
    assert!(check_handshake_reply(&vec![1]).is_ok());
    let mut refused = vec![0u8, 2, 0, 3, 0, 4, 0];
    refused.extend_from_slice(&[9, 2, 0, 0, 0, b'n', b'o']);
    let e = check_handshake_reply(&refused).unwrap_err();
    assert_eq!(
        e.kind,
        ErrorKind::Handshake {
            server_version: Version { major: 2, minor: 3, patch: 4 },
            client_version: Version { major: 1, minor: 1, patch: 0 },
        }
    );
    assert_eq!(e.message, "no");
    assert_eq!(check_handshake_reply(&vec![]).unwrap_err().kind, ErrorKind::Codec);
    assert_eq!(check_handshake_reply(&vec![0, 1]).unwrap_err().kind, ErrorKind::Codec);
}

#[test]
fn configuration_builders() {
    let c = Configuration::default();
    assert_eq!(c.address, "127.0.0.1:10800");
    assert!(c.username.is_none() && c.password.is_none());
    let c = c.address("10.0.0.1:10800").username("u").password("p");
    assert_eq!(c.address, "10.0.0.1:10800");
    assert_eq!(c.username.as_deref(), Some("u"));
    assert_eq!(c.password.as_deref(), Some("p"));
}
