use vstd::prelude::*;

use crate::bitfield::Bitfield;
use crate::handshake::{handshake_accepted, read_handshake};
use crate::message::{Message, MSG_BITFIELD};
use crate::p2p::Peer;

verus! {

/// Why a peer session could not be opened or used.
#[derive(Debug, Clone, Copy, PartialEq, Eq, Structural)]
pub enum ClientError {
    /// The connection could not be made or broke down.
    ConnectionFailure,
    /// The peer's bitfield could not be read.
    BitfieldFailure,
    /// The first message after the handshake was not a bitfield.
    PayloadFailure,
    /// A message could not be sent.
    MessageFailure,
    /// The handshake reply did not carry the protocol identifier.
    HandshakeMismatch,
}

/// The state of a session with one peer: whether it chokes us, which pieces
/// it has, and who the two ends are.
#[derive(Debug)]
pub struct Client {
    pub choked: bool,
    pub bitfield: Bitfield,
    pub peer: Peer,
    pub info_hash: [u8; 20],
    pub peer_id: [u8; 20],
}

/// Opens a session from the peer's handshake reply and the first message
/// that followed it, which must be a bitfield. The session starts choked.
pub fn new(
    p: Peer,
    peer_id: [u8; 20],
    info_hash: [u8; 20],
    handshake_reply: &Vec<u8>,
    first: Message,
) -> (r: Result<Client, ClientError>)
    ensures
        !handshake_accepted(handshake_reply@) ==> r == Err::<Client, ClientError>(
            ClientError::HandshakeMismatch,
        ),
        handshake_accepted(handshake_reply@) && first.id != MSG_BITFIELD ==> r == Err::<
            Client,
            ClientError,
        >(ClientError::PayloadFailure),
        handshake_accepted(handshake_reply@) && first.id == MSG_BITFIELD ==> match r {
            Ok(c) => c.choked && c.bitfield@ == first.payload@ && c.peer == p && c.info_hash
                == info_hash && c.peer_id == peer_id,
            Err(_) => false,
        },
{
    match read_handshake(handshake_reply) {
        Err(e) => Err(e),
        Ok(_) => {
            match receive_bitfield(first) {
                Err(e) => Err(e),
                Ok(bitfield) => Ok(Client { choked: true, bitfield, peer: p, info_hash, peer_id }),
            }
        },
    }
}

/// The bitfield carried by the first message of a session; any other
/// message there breaks the protocol.
pub fn receive_bitfield(msg: Message) -> (r: Result<Bitfield, ClientError>)
    ensures
        msg.id == MSG_BITFIELD ==> r is Ok && r->Ok_0@ == msg.payload@,
        msg.id != MSG_BITFIELD ==> r == Err::<Bitfield, ClientError>(ClientError::PayloadFailure),
{
    if msg.id != MSG_BITFIELD {
        return Err(ClientError::PayloadFailure);
    }
    Ok(Bitfield::new(msg.payload))
}

} // verus!
