use std::str;

use torrent_client::client::ClientError;
use torrent_client::handshake::{new_handshake, read_handshake};

#[test]
fn read_handshake_works() {
    let handshake_response: Vec<u8> = vec![
        19, 66, 105, 116, 84, 111, 114, 114, 101, 110, 116, 32, 112, 114, 111, 116, 111, 99,
        111, 108, 0, 0, 0, 0, 0, 16, 0, 5, 90, 128, 98, 192, 118, 250, 133, 232, 5, 100, 81,
        192, 217, 170, 4, 52, 154, 226, 121, 9, 45, 84, 82, 50, 57, 52, 48, 45, 98, 102, 52,
        50, 56, 107, 52, 104, 113, 107, 99, 53, 0, 0, 0, 169, 5, 255, 255, 255, 255, 255, 255,
        255, 255, 255, 255, 255, 255, 255, 255, 255, 255, 255, 255, 255, 255, 255, 255, 255,
        255, 255, 255, 255, 255, 255, 255, 255, 255, 255, 255, 255, 255, 255, 255, 255, 255,
        255, 255, 255, 255, 255, 255, 255, 255, 255, 255, 255, 255, 255, 255, 255, 255, 255,
        255, 255, 255, 255, 255, 255, 255, 255, 255, 255, 255, 255, 255, 255, 255, 255, 255,
        255, 255, 255, 255, 255, 255, 255, 255, 255, 255, 255, 255, 255, 255, 255, 255, 255,
        255, 255, 255, 255, 255, 255, 255, 255, 255, 255, 255, 255, 255, 255, 255, 255, 255,
        255, 255, 255, 255, 255, 255, 255, 255, 255, 255, 255, 255, 255, 255, 255, 255, 255,
        255, 255, 255, 255, 255, 255, 255, 255, 255, 255, 255, 255, 255, 255, 255, 255, 255,
        255, 255, 255, 255, 255, 255, 255, 255, 255, 255, 255, 255, 255, 255, 255, 255, 255,
        255, 255, 255, 255, 255, 255, 255, 255, 240, 0, 0, 0, 1, 1,
    ];

    let handshake = read_handshake(&handshake_response).unwrap();

    assert_eq!(handshake.pstr, "BitTorrent protocol");
    assert_eq!(
        handshake.info_hash,
        [
            90, 128, 98, 192, 118, 250, 133, 232, 5, 100, 81, 192, 217, 170, 4, 52, 154, 226,
            121, 9
        ]
    );
    assert_eq!(
        str::from_utf8(&handshake.peer_id).unwrap().to_owned(),
        "-TR2940-bf428k4hqkc5"
    );
}

#[test]
fn handshake_serialize_layout() {
    let info_hash = [7u8; 20];
    let peer_id = *b"kjh29409k8hj0wgej6c1";
    let bytes = new_handshake(info_hash, peer_id).serialize();
    assert_eq!(bytes.len(), 68);
    assert_eq!(bytes[0], 19);
    assert_eq!(&bytes[1..20], b"BitTorrent protocol");
    assert_eq!(&bytes[20..28], &[0u8; 8]);
    assert_eq!(&bytes[28..48], &info_hash);
    assert_eq!(&bytes[48..68], &peer_id);
}

#[test]
fn handshake_round_trip() {
    let info_hash = [0xabu8; 20];
    let peer_id = [0x31u8; 20];
    let bytes = new_handshake(info_hash, peer_id).serialize();
    let h = read_handshake(&bytes).unwrap();
    assert_eq!(h.info_hash, info_hash);
    assert_eq!(h.peer_id, peer_id);
    assert_eq!(h.pstr, "BitTorrent protocol");
}

#[test]
fn handshake_mismatch_is_refused() {
    let mut bytes = new_handshake([1u8; 20], [2u8; 20]).serialize();
    bytes[0] = 18;
    assert_eq!(read_handshake(&bytes).unwrap_err(), ClientError::HandshakeMismatch);
    let mut bytes = new_handshake([1u8; 20], [2u8; 20]).serialize();
    bytes[5] = b'x';
    assert_eq!(read_handshake(&bytes).unwrap_err(), ClientError::HandshakeMismatch);
    let short: Vec<u8> = new_handshake([1u8; 20], [2u8; 20]).serialize()[..67].to_vec();
    assert_eq!(read_handshake(&short).unwrap_err(), ClientError::HandshakeMismatch);
}

#[test]
fn reserved_bytes_are_ignored() {
    let mut bytes = new_handshake([1u8; 20], [2u8; 20]).serialize();
    bytes[25] = 0x10;
    assert!(read_handshake(&bytes).is_ok());
}
