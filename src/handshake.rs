use vstd::prelude::*;
use vstd::utf8::encode_utf8;

use crate::client::ClientError;

verus! {

/// The ASCII bytes of the protocol identifier "BitTorrent protocol".
pub open spec fn protocol_bytes() -> Seq<u8> {
    seq![
        66u8, 105u8, 116u8, 84u8, 111u8, 114u8, 114u8, 101u8, 110u8, 116u8, 32u8, 112u8, 114u8,
        111u8, 116u8, 111u8, 99u8, 111u8, 108u8,
    ]
}

/// Eight zero bytes: the reserved extension bytes of a handshake.
pub open spec fn reserved_bytes() -> Seq<u8> {
    seq![0u8, 0u8, 0u8, 0u8, 0u8, 0u8, 0u8, 0u8]
}

/// Whether `data` starts with a well-formed handshake preamble: the length
/// byte 19, then the protocol identifier, within a frame of 68 bytes.
pub open spec fn handshake_accepted(data: Seq<u8>) -> bool {
    data.len() >= 68 && data[0] == 19 && data.subrange(1, 20) == protocol_bytes()
}

/// The greeting that opens a peer connection.
#[derive(Debug)]
pub struct Handshake {
    pub pstr: String,
    pub info_hash: [u8; 20],
    pub peer_id: [u8; 20],
}

fn protocol_vec() -> (r: Vec<u8>)
    ensures
        r@ == protocol_bytes(),
{
    let r: Vec<u8> = vec![
        66u8, 105u8, 116u8, 84u8, 111u8, 114u8, 114u8, 101u8, 110u8, 116u8, 32u8, 112u8, 114u8,
        111u8, 116u8, 111u8, 99u8, 111u8, 108u8,
    ];
    assert(r@ =~= protocol_bytes());
    r
}

/// A handshake for the swarm `info_hash` from the client `peer_id`.
pub fn new_handshake(info_hash: [u8; 20], peer_id: [u8; 20]) -> (h: Handshake)
    ensures
        h.pstr@ == "BitTorrent protocol"@,
        h.info_hash == info_hash,
        h.peer_id == peer_id,
{
    Handshake { pstr: "BitTorrent protocol".to_owned(), info_hash, peer_id }
}

fn push_all(buf: &mut Vec<u8>, s: &[u8])
    ensures
        final(buf)@ == old(buf)@ + s@,
{
    let mut i: usize = 0;
    while i < s.len()
        invariant
            i <= s@.len(),
            buf@ == old(buf)@ + s@.subrange(0, i as int),
        decreases s@.len() - i,
    {
        buf.push(s[i]);
        i = i + 1;
        assert(buf@ =~= old(buf)@ + s@.subrange(0, i as int));
    }
    assert(s@.subrange(0, i as int) =~= s@);
}

impl Handshake {
    /// The handshake frame: the length of `pstr`, its bytes, eight zero
    /// bytes, the info hash and the peer id.
    pub fn serialize(&self) -> (r: Vec<u8>)
        requires
            encode_utf8(self.pstr@).len() <= 255,
        ensures
            r@ == seq![encode_utf8(self.pstr@).len() as u8] + encode_utf8(self.pstr@)
                + reserved_bytes() + self.info_hash@ + self.peer_id@,
    {
        let mut buffer: Vec<u8> = Vec::new();
        let pstr_bytes: &[u8] = self.pstr.as_str().as_bytes();
        buffer.push(pstr_bytes.len() as u8);
        push_all(&mut buffer, pstr_bytes);
        let mut i: usize = 0;
        while i < 8
            invariant
                i <= 8,
                buffer@ == seq![encode_utf8(self.pstr@).len() as u8] + encode_utf8(self.pstr@)
                    + reserved_bytes().subrange(0, i as int),
            decreases 8 - i,
        {
            buffer.push(0u8);
            i = i + 1;
            assert(buffer@ =~= seq![encode_utf8(self.pstr@).len() as u8] + encode_utf8(
                self.pstr@,
            ) + reserved_bytes().subrange(0, i as int));
        }
        assert(reserved_bytes().subrange(0, 8) =~= reserved_bytes());
        push_all(&mut buffer, self.info_hash.as_slice());
        push_all(&mut buffer, self.peer_id.as_slice());
        buffer
    }
}

pub(crate) fn copy_20(data: &Vec<u8>, at: usize) -> (r: [u8; 20])
    requires
        at + 20 <= data@.len(),
    ensures
        r@ == data@.subrange(at as int, at + 20),
{
    let len: usize = data.len();
    let mut r: [u8; 20] = [0u8; 20];
    let mut i: usize = 0;
    while i < 20
        invariant
            i <= 20,
            at + 20 <= data@.len(),
            len == data@.len(),
            r@.len() == 20,
            forall|k: int| 0 <= k < i ==> r@[k] == data@[at + k],
        decreases 20 - i,
    {
        r[i] = data[at + i];
        i = i + 1;
    }
    assert(r@ =~= data@.subrange(at as int, at + 20));
    r
}

/// Reads a peer's handshake reply. It is accepted when it holds 68 bytes,
/// its first byte is 19 and the next 19 bytes are the protocol identifier;
/// the reserved bytes are ignored.
pub fn read_handshake(data: &Vec<u8>) -> (r: Result<Handshake, ClientError>)
    ensures
        handshake_accepted(data@) <==> r is Ok,
        match r {
            Ok(h) => h.pstr@ == "BitTorrent protocol"@ && h.info_hash@ == data@.subrange(28, 48)
                && h.peer_id@ == data@.subrange(48, 68),
            Err(e) => e == ClientError::HandshakeMismatch,
        },
{
    if data.len() < 68 || data[0] != 19 {
        return Err(ClientError::HandshakeMismatch);
    }
    let expected = protocol_vec();
    let mut i: usize = 0;
    while i < 19
        invariant
            i <= 19,
            data@.len() >= 68,
            expected@ == protocol_bytes(),
            forall|k: int| 0 <= k < i ==> data@[1 + k] == protocol_bytes()[k],
        decreases 19 - i,
    {
        if data[1 + i] != expected[i] {
            assert(data@.subrange(1, 20)[i as int] != protocol_bytes()[i as int]);
            return Err(ClientError::HandshakeMismatch);
        }
        i = i + 1;
    }
    assert(data@.subrange(1, 20) =~= protocol_bytes());
    let info_hash = copy_20(data, 28);
    let peer_id = copy_20(data, 48);
    Ok(new_handshake(info_hash, peer_id))
}

} // verus!
