//! A single-file BitTorrent download core: the peer wire codec, the per-peer
//! piece download state machine, the worker's scheduling decisions and the
//! assembly of verified pieces into the final payload.

pub mod bitfield;
pub mod digest;
pub mod message;
pub mod client;
pub mod handshake;
pub mod p2p;
pub mod swarm;
pub mod torrent;

