use torrent_client::message::{
    format_have, format_request, new_message, next_message, parse_have, parse_piece,
    read_be_u32, Message, MessageError, MSG_CANCEL, MSG_HAVE, MSG_INTERESTED, MSG_PIECE,
    MSG_REQUEST, MSG_UNCHOKE,
};

#[test]
fn message_serialize_works() {
    let msg = Message {
        id: MSG_CANCEL,
        payload: vec![1, 2, 3],
    };
    let s = msg.serialize();
    assert_eq!(s, [0, 0, 0, 4, 8, 1, 2, 3]);
}

#[test]
fn message_read_works() {
    let serialized: Vec<u8> = vec![0, 0, 0, 4, 8, 1, 2, 3];
    let de = new_message(serialized);

    let msg = Message {
        id: MSG_CANCEL,
        payload: vec![1, 2, 3],
    };
    assert_eq!(de, msg);
}

#[test]
fn message_read_no_payload() {
    let serialized: Vec<u8> = vec![0, 0, 0, 1, 2];
    let de = new_message(serialized);

    let msg = Message {
        id: MSG_INTERESTED,
        payload: vec![],
    };
    assert_eq!(de, msg);
}

#[test]
fn parse_piece_works() {
    let index = 4;
    let mut buf = vec![0u8; 10];
    let msg = Message {
        id: MSG_PIECE,
        payload: vec![
            0x00, 0x00, 0x00, 0x04, // Index
            0x00, 0x00, 0x00, 0x02, // Begin
            0xaa, 0xbb, 0xcc, 0xdd, 0xee, 0xff, // Block
        ],
    };
    let expected_buf = vec![0x00, 0x00, 0xaa, 0xbb, 0xcc, 0xdd, 0xee, 0xff, 0x00, 0x00];
    let expected_length = 6;
    let test_length = parse_piece(index, &mut buf, msg).unwrap();
    assert_eq!(test_length, expected_length);
    assert_eq!(buf, expected_buf);
}

#[test]
fn serialize_empty_payload_is_five_bytes() {
    let msg = Message {
        id: MSG_INTERESTED,
        payload: vec![],
    };
    assert_eq!(msg.serialize(), vec![0, 0, 0, 1, 2]);
}

#[test]
fn serialize_then_read_round_trips() {
    let msgs = vec![
        Message { id: MSG_CANCEL, payload: vec![1, 2, 3] },
        Message { id: MSG_INTERESTED, payload: vec![] },
        Message { id: 200, payload: (0..300u32).map(|x| x as u8).collect() },
    ];
    for m in msgs {
        let bytes = m.serialize();
        let (back, used) = next_message(&bytes).unwrap();
        assert_eq!(used, bytes.len());
        assert_eq!(back, m);
        assert_eq!(new_message(bytes), m);
    }
}

#[test]
fn keep_alive_is_skipped() {
    let stream: Vec<u8> = vec![0, 0, 0, 0, 0, 0, 0, 1, 2, 9];
    let (m, used) = next_message(&stream).unwrap();
    assert_eq!(m, Message { id: MSG_INTERESTED, payload: vec![] });
    assert_eq!(used, 9);
}

#[test]
fn keep_alives_alone_yield_nothing() {
    assert!(next_message(&vec![0, 0, 0, 0]).is_none());
    assert!(next_message(&vec![0, 0, 0, 0, 0, 0, 0, 0, 0, 0]).is_none());
    assert!(next_message(&vec![]).is_none());
}

#[test]
fn incomplete_frame_yields_nothing() {
    assert!(next_message(&vec![0, 0, 0, 4, 8, 1, 2]).is_none());
}

#[test]
fn read_be_u32_reads_big_endian() {
    assert_eq!(read_be_u32(&vec![9, 0x12, 0x34, 0x56, 0x78], 1), 0x12345678);
}

#[test]
fn parse_have_reads_index() {
    let m = Message { id: MSG_HAVE, payload: vec![0, 0, 1, 2] };
    assert_eq!(parse_have(m), Ok(258));
}

#[test]
fn parse_have_rejects_wrong_length() {
    let m = Message { id: MSG_HAVE, payload: vec![0, 0, 1] };
    assert_eq!(parse_have(m), Err(MessageError::HaveLength));
}

#[test]
fn parse_piece_errors_leave_buffer() {
    let cases: Vec<(Vec<u8>, MessageError)> = vec![
        (vec![0, 0, 0, 4, 0, 0, 0], MessageError::PayloadTooShort),
        (vec![0, 0, 0, 5, 0, 0, 0, 0, 1], MessageError::IndexMismatch),
        (vec![0, 0, 0, 4, 0, 0, 0, 10, 1], MessageError::BeginOutOfRange),
        (vec![0, 0, 0, 4, 0, 0, 0, 8, 1, 2, 3], MessageError::BlockTooLong),
    ];
    for (payload, err) in cases {
        let mut buf = vec![7u8; 10];
        let r = parse_piece(4, &mut buf, Message { id: MSG_PIECE, payload });
        assert_eq!(r, Err(err));
        assert_eq!(buf, vec![7u8; 10]);
    }
}

#[test]
fn parse_piece_fills_to_the_end() {
    let mut buf = vec![0u8; 4];
    let msg = Message { id: MSG_PIECE, payload: vec![0, 0, 0, 1, 0, 0, 0, 2, 5, 6] };
    assert_eq!(parse_piece(1, &mut buf, msg), Ok(2));
    assert_eq!(buf, vec![0, 0, 5, 6]);
}

#[test]
fn format_have_payload() {
    let m = format_have(0x01020304);
    assert_eq!(m.id, MSG_HAVE);
    assert_eq!(m.payload, vec![1, 2, 3, 4]);
}

#[test]
fn format_request_payload() {
    let m = format_request(1, 16384, 16384);
    assert_eq!(m.id, MSG_REQUEST);
    assert_eq!(m.payload, vec![0, 0, 0, 1, 0, 0, 0x40, 0, 0, 0, 0x40, 0]);
    assert_eq!(
        m.serialize(),
        vec![0, 0, 0, 13, 6, 0, 0, 0, 1, 0, 0, 0x40, 0, 0, 0, 0x40, 0]
    );
}

#[test]
fn unchoke_frame() {
    let m = Message { id: MSG_UNCHOKE, payload: vec![] };
    assert_eq!(m.serialize(), vec![0, 0, 0, 1, 1]);
}
