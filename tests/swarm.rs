use sha1::{Digest, Sha1};

use torrent_client::client;
use torrent_client::handshake::new_handshake;
use torrent_client::message::{next_message, Message, MSG_BITFIELD, MSG_PIECE, MSG_UNCHOKE};
use torrent_client::p2p::{
    assign_piece, finish_piece, IpAddress, Peer, PieceProgress, PieceResult, WorkerAction,
};
use torrent_client::swarm::{build_work_queue, Assembler};
use torrent_client::torrent::Torrent;

fn digest(data: &[u8]) -> [u8; 20] {
    let d = Sha1::digest(data);
    let mut out = [0u8; 20];
    out.copy_from_slice(&d);
    out
}

fn payload() -> Vec<u8> {
    (0..48u8).map(|x| x.wrapping_mul(7)).collect()
}

fn two_piece_torrent() -> Torrent {
    let data = payload();
    Torrent {
        announce: "http://t/announce".to_string(),
        name: "f".to_string(),
        length: 48,
        info_hash: [1u8; 20],
        piece_length: 32,
        piece_hashes: vec![digest(&data[0..32]), digest(&data[32..48])],
    }
}

#[test]
fn work_queue_has_one_unit_per_piece() {
    let t = two_piece_torrent();
    let q = build_work_queue(&t);
    assert_eq!(q.len(), 2);
    assert_eq!((q[0].index, q[0].length, q[0].hash), (0, 32, t.piece_hashes[0]));
    assert_eq!((q[1].index, q[1].length, q[1].hash), (1, 16, t.piece_hashes[1]));
}

#[test]
fn assembler_rejects_bad_results() {
    let t = two_piece_torrent();
    let mut a = Assembler::new(&t);
    assert!(!a.add_result(&t, &PieceResult { index: 2, buf: vec![0; 16] }));
    assert!(!a.add_result(&t, &PieceResult { index: 1, buf: vec![0; 15] }));
    assert!(!a.add_result(&t, &PieceResult { index: 1, buf: vec![0; 16] }));
    assert_eq!(a.done, 0);
    assert!(!a.is_complete(&t));
    assert_eq!(a.into_buf(), vec![0u8; 48]);
}

#[test]
fn assembler_places_pieces_in_any_order() {
    let t = two_piece_torrent();
    let data = payload();
    let mut a = Assembler::new(&t);
    assert!(a.add_result(&t, &PieceResult { index: 1, buf: data[32..48].to_vec() }));
    assert!(!a.is_complete(&t));
    assert!(a.add_result(&t, &PieceResult { index: 1, buf: data[32..48].to_vec() }));
    assert_eq!(a.done, 1);
    assert!(a.add_result(&t, &PieceResult { index: 0, buf: data[0..32].to_vec() }));
    assert!(a.is_complete(&t));
    assert_eq!(a.into_buf(), data);
}

#[test]
fn end_to_end_with_mock_peer() {
    let t = two_piece_torrent();
    let data = payload();
    let reply = new_handshake(t.info_hash, *b"-MOCK-0000000000000-").serialize();
    let mut peer_stream: Vec<u8> = Vec::new();
    peer_stream.extend(Message { id: MSG_UNCHOKE, payload: vec![] }.serialize());
    let bitfield = Message { id: MSG_BITFIELD, payload: vec![0b1100_0000] };
    let mut c = Some(
        client::new(
            Peer { ip: IpAddress::V4([127, 0, 0, 1]), port: 6881 },
            *b"kjh29409k8hj0wgej6c1",
            t.info_hash,
            &reply,
            bitfield,
        )
        .unwrap(),
    );
    let mut queue = build_work_queue(&t);
    let mut a = Assembler::new(&t);
    while let Some(pw) = queue.pop() {
        match assign_piece(c.as_ref().unwrap(), pw) {
            WorkerAction::Download(pw) => {
                let mut st = PieceProgress::new(&pw, c.take().unwrap());
                while !st.is_done() {
                    for req in st.request_blocks() {
                        // The mock peer answers each request with the block.
                        let p = &req.payload;
                        let index = u32::from_be_bytes([p[0], p[1], p[2], p[3]]);
                        let begin = u32::from_be_bytes([p[4], p[5], p[6], p[7]]);
                        let len = u32::from_be_bytes([p[8], p[9], p[10], p[11]]);
                        let start = (index * 32 + begin) as usize;
                        let mut body = p[0..8].to_vec();
                        body.extend_from_slice(&data[start..start + len as usize]);
                        peer_stream.extend(Message { id: MSG_PIECE, payload: body }.serialize());
                        peer_stream.extend([0, 0, 0, 0]);
                    }
                    let next = next_message(&peer_stream);
                    let msg = next.map(|(m, used)| {
                        peer_stream.drain(..used);
                        m
                    });
                    assert!(st.read_message_pp(msg).is_none());
                }
                let buf = st.buf;
                c = Some(st.client);
                match finish_piece(pw, Ok(buf)) {
                    WorkerAction::Deliver { have, result } => {
                        assert_eq!(have.payload, (pw.index as u32).to_be_bytes().to_vec());
                        assert!(a.add_result(&t, &result));
                    }
                    other => panic!("unexpected {:?}", other),
                }
            }
            other => panic!("unexpected {:?}", other),
        }
    }
    assert!(a.is_complete(&t));
    let assembled = a.into_buf();
    assert_eq!(assembled.len(), 48);
    assert_eq!(digest(&assembled[0..32]), t.piece_hashes[0]);
    assert_eq!(digest(&assembled[32..48]), t.piece_hashes[1]);
    assert_eq!(assembled, data);
}
