use vstd::prelude::*;

use crate::bitfield::{has_bit, with_bit};
use crate::client::Client;
use crate::digest::{sha1_digest, sha1_of};
use crate::message::{
    be_u32_at, format_have, format_request, parse_have, parse_piece, piece_outcome,
    piece_written, u32_be, Message, MSG_CHOKE, MSG_HAVE, MSG_PIECE, MSG_REQUEST, MSG_UNCHOKE,
};

verus! {

/// The peer id that this client announces.
pub const PEER_ID_STRING: &'static str = "kjh29409k8hj0wgej6c1";

/// The largest block that a request asks for.
pub const MAX_BLOCK_SIZE: i64 = 16384;

/// The most requests that are left unanswered at a time.
pub const MAX_BACKLOG: i64 = 5;

/// Why the download of one piece from one peer stopped.
#[derive(Debug, Clone, Copy, PartialEq, Eq, Structural)]
pub enum PieceError {
    /// The connection failed while the piece was being read.
    DownloadFailure,
    /// The peer sent a malformed `have` or `piece` message.
    MessageParsingFailure,
}

/// A peer's network address.
#[derive(Debug, Clone, Copy, PartialEq, Eq)]
pub enum IpAddress {
    V4([u8; 4]),
    V6([u8; 16]),
}

/// A peer of the swarm, as the tracker lists it.
#[derive(Debug, Clone, Copy, PartialEq, Eq)]
pub struct Peer {
    pub ip: IpAddress,
    pub port: u16,
}

/// One unit of work: a piece, its expected digest and its length.
#[derive(Debug, Clone, Copy)]
pub struct PieceWork {
    pub index: i64,
    pub hash: [u8; 20],
    pub length: i64,
}

/// A downloaded and verified piece.
#[derive(Debug)]
pub struct PieceResult {
    pub index: i64,
    pub buf: Vec<u8>,
}

/// Whether `buf` has the digest that the piece is expected to have.
pub open spec fn integrity_holds(hash: Seq<u8>, buf: Seq<u8>) -> bool {
    sha1_digest(buf) == hash
}

/// Whether the SHA-1 digest of `buf` is the one recorded for the piece.
pub fn check_integrity(pw: &PieceWork, buf: &Vec<u8>) -> (r: bool)
    ensures
        r == integrity_holds(pw.hash@, buf@),
{
    let sum = sha1_of(buf.as_slice());
    digests_equal(&sum, &pw.hash)
}

/// Compares two digests byte by byte.
pub fn digests_equal(a: &[u8; 20], b: &[u8; 20]) -> (r: bool)
    ensures
        r == (a@ == b@),
{
    let mut i: usize = 0;
    while i < 20
        invariant
            i <= 20,
            a@.len() == 20,
            b@.len() == 20,
            forall|k: int| 0 <= k < i ==> a@[k] == b@[k],
        decreases 20 - i,
    {
        if a[i] != b[i] {
            return false;
        }
        i = i + 1;
    }
    assert(a@ =~= b@);
    true
}

/// What a worker does next with a piece.
#[derive(Debug)]
pub enum WorkerAction {
    /// Download the piece from this worker's peer.
    Download(PieceWork),
    /// Put the piece back on the work queue unchanged; when `exit` holds the
    /// worker stops serving its peer.
    Requeue { piece: PieceWork, exit: bool },
    /// Announce the piece to the peer with `have` and hand `result` to the
    /// scheduler.
    Deliver { have: Message, result: PieceResult },
}

/// Whether the peer of a session advertises piece `index` (an index that
/// does not fit in `usize` never is).
pub open spec fn advertised(client: &Client, index: i64) -> bool {
    0 <= index <= usize::MAX && has_bit(client.bitfield@, index as int)
}

/// The decision for a piece that was just taken from the work queue: a
/// piece that the peer does not advertise goes back to the queue.
pub fn assign_piece(client: &Client, piece: PieceWork) -> (r: WorkerAction)
    ensures
        advertised(client, piece.index) ==> r == WorkerAction::Download(piece),
        !advertised(client, piece.index) ==> r == (WorkerAction::Requeue { piece, exit: false }),
{
    if piece.index >= 0 && piece.index as u64 <= usize::MAX as u64 && client.bitfield.has_piece(
        piece.index as usize,
    ) {
        WorkerAction::Download(piece)
    } else {
        WorkerAction::Requeue { piece, exit: false }
    }
}

/// The decision once the download of `piece` has ended. A failed download
/// puts the piece back and ends the worker, whose peer is then suspect; a
/// piece whose digest does not match goes back while the worker carries on;
/// a good piece is announced and delivered. A downloaded buffer has the
/// piece's length.
pub fn finish_piece(piece: PieceWork, outcome: Result<Vec<u8>, PieceError>) -> (r: WorkerAction)
    requires
        match outcome {
            Ok(buf) => buf@.len() == piece.length && 0 <= piece.index <= u32::MAX,
            Err(_) => true,
        },
    ensures
        match outcome {
            Err(_) => r == (WorkerAction::Requeue { piece, exit: true }),
            Ok(buf) => if integrity_holds(piece.hash@, buf@) {
                match r {
                    WorkerAction::Deliver { have, result } => have.id == MSG_HAVE
                        && have.payload@ == u32_be(piece.index as u32) && result.index
                        == piece.index && result.buf@ == buf@ && result.buf@.len()
                        == piece.length,
                    _ => false,
                }
            } else {
                r == (WorkerAction::Requeue { piece, exit: false })
            },
        },
{
    match outcome {
        Err(_) => WorkerAction::Requeue { piece, exit: true },
        Ok(buf) => {
            if !check_integrity(&piece, &buf) {
                WorkerAction::Requeue { piece, exit: false }
            } else {
                let have = format_have(piece.index);
                WorkerAction::Deliver { have, result: PieceResult { index: piece.index, buf } }
            }
        },
    }
}

/// The payload of a request for `length` bytes of piece `index` from
/// offset `begin`.
pub open spec fn request_payload(index: i64, begin: i64, length: i64) -> Seq<u8> {
    u32_be(index as u32) + u32_be(begin as u32) + u32_be(length as u32)
}

/// The size of the block that starts at `begin` in a piece of `length`
/// bytes.
pub open spec fn block_size(length: int, begin: int) -> int {
    if length - begin < MAX_BLOCK_SIZE {
        length - begin
    } else {
        MAX_BLOCK_SIZE as int
    }
}

/// What one message read from the peer does to a download that was in state
/// `o` and is now in state `f`, with `r` the error that ends it, if any:
/// `unchoke` and `choke` set the choke flag; `have` marks the piece in the
/// peer's bitfield; `piece` copies its block into the buffer, counts the
/// bytes and takes one off the backlog;
/// any other message is ignored. A malformed `have` or `piece` ends the
/// download and changes nothing.
pub open spec fn message_effect(
    o: PieceProgress,
    f: PieceProgress,
    m: Message,
    r: Option<PieceError>,
) -> bool {
    if m.id == MSG_UNCHOKE || m.id == MSG_CHOKE {
        &&& r is None
        &&& f.client.choked == (m.id == MSG_CHOKE)
        &&& f.client.bitfield == o.client.bitfield
        &&& f.buf == o.buf
        &&& f.downloaded == o.downloaded
        &&& f.backlog == o.backlog
    } else if m.id == MSG_HAVE {
        if m.payload@.len() != 4 {
            r == Some(PieceError::MessageParsingFailure) && f == o
        } else {
            &&& r is None
            &&& f.client.choked == o.client.choked
            &&& f.client.bitfield@ == with_bit(o.client.bitfield@, be_u32_at(m.payload@, 0) as int)
            &&& f.buf == o.buf
            &&& f.downloaded == o.downloaded
            &&& f.backlog == o.backlog
        }
    } else if m.id == MSG_PIECE {
        match piece_outcome(o.index as u32, o.buf@.len() as int, m.payload@) {
            Err(_) => r == Some(PieceError::MessageParsingFailure) && f.client == o.client
                && f.buf@ == o.buf@ && f.downloaded == o.downloaded && f.backlog == o.backlog,
            Ok(n) => {
                &&& r is None
                &&& f.client == o.client
                &&& f.buf@ == piece_written(o.buf@, m.payload@)
                &&& f.downloaded == o.downloaded + n
                &&& f.backlog == o.backlog - 1
            },
        }
    } else {
        r is None && f == o
    }
}

/// The download of one piece from one peer: the buffer that fills up, the
/// bytes received and requested so far, and the requests not yet answered.
#[derive(Debug)]
pub struct PieceProgress {
    pub index: i64,
    pub client: Client,
    pub buf: Vec<u8>,
    pub downloaded: i64,
    pub requested: i64,
    pub backlog: i64,
}

impl PieceProgress {
    /// The counters stay within what the piece allows.
    pub open spec fn wf(&self) -> bool {
        &&& 0 <= self.index <= u32::MAX
        &&& self.buf@.len() <= u32::MAX
        &&& 0 <= self.requested <= self.buf@.len()
        &&& 0 <= self.downloaded <= 2 * u32::MAX
        &&& self.backlog <= MAX_BACKLOG
    }

    /// The state in which the download of `pw` starts: an empty buffer of
    /// the piece's length and all counters at zero.
    pub fn new(pw: &PieceWork, client: Client) -> (r: PieceProgress)
        requires
            0 <= pw.index <= u32::MAX,
            0 <= pw.length <= u32::MAX,
        ensures
            r.wf(),
            r.index == pw.index,
            r.client == client,
            r.buf@ == Seq::new(pw.length as nat, |k: int| 0u8),
            r.downloaded == 0,
            r.requested == 0,
            r.backlog == 0,
    {
        let n: usize = pw.length as usize;
        let mut buf: Vec<u8> = Vec::new();
        let mut i: usize = 0;
        while i < n
            invariant
                i <= n,
                buf@ == Seq::new(i as nat, |k: int| 0u8),
            decreases n - i,
        {
            buf.push(0u8);
            i = i + 1;
            assert(buf@ =~= Seq::new(i as nat, |k: int| 0u8));
        }
        PieceProgress { index: pw.index, client, buf, downloaded: 0, requested: 0, backlog: 0 }
    }

    /// Whether every byte of the piece has arrived.
    pub fn is_done(&self) -> (r: bool)
        requires
            self.wf(),
        ensures
            r == (self.downloaded >= self.buf@.len()),
    {
        self.downloaded >= self.buf.len() as i64
    }

    /// Keeps the pipeline full: while the peer does not choke us, fewer than
    /// `MAX_BACKLOG` requests are unanswered and part of the piece is still
    /// unrequested, requests the next block of at most `MAX_BLOCK_SIZE`
    /// bytes. Returns the requests to send, in order.
    pub fn request_blocks(&mut self) -> (r: Vec<Message>)
        requires
            old(self).wf(),
        ensures
            final(self).wf(),
            final(self).index == old(self).index,
            final(self).client == old(self).client,
            final(self).buf == old(self).buf,
            final(self).downloaded == old(self).downloaded,
            old(self).client.choked ==> r@.len() == 0 && *final(self) == *old(self),
            !old(self).client.choked ==> {
                &&& final(self).backlog == old(self).backlog + r@.len()
                &&& final(self).backlog == MAX_BACKLOG || final(self).requested
                    == old(self).buf@.len()
                &&& final(self).requested == if old(self).requested + r@.len() * MAX_BLOCK_SIZE
                    <= old(self).buf@.len() {
                    old(self).requested + r@.len() * MAX_BLOCK_SIZE
                } else {
                    old(self).buf@.len() as int
                }
                &&& forall|j: int|
                    #![trigger r@[j]]
                    0 <= j < r@.len() ==> {
                        let begin = old(self).requested + j * MAX_BLOCK_SIZE;
                        &&& begin < old(self).buf@.len()
                        &&& r@[j].id == MSG_REQUEST
                        &&& r@[j].payload@ == request_payload(
                            old(self).index,
                            begin as i64,
                            block_size(old(self).buf@.len() as int, begin) as i64,
                        )
                    }
            },
    {
        let mut reqs: Vec<Message> = Vec::new();
        if self.client.choked {
            return reqs;
        }
        let length: i64 = self.buf.len() as i64;
        while self.backlog < MAX_BACKLOG && self.requested < length
            invariant
                self.wf(),
                length == self.buf@.len(),
                self.index == old(self).index,
                self.client == old(self).client,
                self.buf == old(self).buf,
                self.downloaded == old(self).downloaded,
                self.backlog == old(self).backlog + reqs@.len(),
                self.requested == old(self).requested + reqs@.len() * MAX_BLOCK_SIZE
                    || (self.requested == length && old(self).requested + (reqs@.len() - 1)
                    * MAX_BLOCK_SIZE < length && length <= old(self).requested + reqs@.len()
                    * MAX_BLOCK_SIZE),
                forall|j: int|
                    #![trigger reqs@[j]]
                    0 <= j < reqs@.len() ==> {
                        let begin = old(self).requested + j * MAX_BLOCK_SIZE;
                        &&& begin < length
                        &&& reqs@[j].id == MSG_REQUEST
                        &&& reqs@[j].payload@ == request_payload(
                            old(self).index,
                            begin as i64,
                            block_size(length as int, begin) as i64,
                        )
                    },
            decreases MAX_BACKLOG - self.backlog,
        {
            let mut block: i64 = MAX_BLOCK_SIZE;
            if length - self.requested < block {
                block = length - self.requested;
            }
            let m = format_request(self.index, self.requested, block);
            reqs.push(m);
            self.backlog = self.backlog + 1;
            self.requested = self.requested + block;
        }
        reqs
    }

    /// Acts on the next message read from the peer; `None` stands for a
    /// failed read, which ends the download.
    pub fn read_message_pp(&mut self, msg: Option<Message>) -> (r: Option<PieceError>)
        requires
            old(self).wf(),
            old(self).downloaded < old(self).buf@.len(),
            old(self).backlog > i64::MIN,
            match msg {
                Some(m) => m.payload@.len() <= u32::MAX,
                None => true,
            },
        ensures
            final(self).wf(),
            final(self).index == old(self).index,
            final(self).requested == old(self).requested,
            final(self).client.peer == old(self).client.peer,
            final(self).client.info_hash == old(self).client.info_hash,
            final(self).client.peer_id == old(self).client.peer_id,
            match msg {
                Some(m) => message_effect(*old(self), *final(self), m, r),
                None => r == Some(PieceError::DownloadFailure) && *final(self) == *old(self),
            },
    {
        match msg {
            None => Some(PieceError::DownloadFailure),
            Some(m) => {
                if m.id == MSG_UNCHOKE {
                    self.client.choked = false;
                    None
                } else if m.id == MSG_CHOKE {
                    self.client.choked = true;
                    None
                } else if m.id == MSG_HAVE {
                    match parse_have(m) {
                        Err(_) => Some(PieceError::MessageParsingFailure),
                        Ok(i) => {
                            self.client.bitfield.set_piece(i as usize);
                            None
                        },
                    }
                } else if m.id == MSG_PIECE {
                    match parse_piece(self.index as u32, &mut self.buf, m) {
                        Err(_) => Some(PieceError::MessageParsingFailure),
                        Ok(n) => {
                            self.downloaded = self.downloaded + n as i64;
                            self.backlog = self.backlog - 1;
                            None
                        },
                    }
                } else {
                    None
                }
            },
        }
    }
}

} // verus!
