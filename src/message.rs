use vstd::prelude::*;

verus! {

pub type MessageId = u8;

pub const MSG_CHOKE: MessageId = 0;

pub const MSG_UNCHOKE: MessageId = 1;

pub const MSG_INTERESTED: MessageId = 2;

pub const MSG_NOT_INTERESTED: MessageId = 3;

pub const MSG_HAVE: MessageId = 4;

pub const MSG_BITFIELD: MessageId = 5;

pub const MSG_REQUEST: MessageId = 6;

pub const MSG_PIECE: MessageId = 7;

pub const MSG_CANCEL: MessageId = 8;

/// The unsigned integer that four bytes spell in big-endian order.
pub open spec fn be_u32(b0: u8, b1: u8, b2: u8, b3: u8) -> u32 {
    ((b0 as u32) << 24u32) | ((b1 as u32) << 16u32) | ((b2 as u32) << 8u32) | (b3 as u32)
}

/// The big-endian integer stored in `s[at..at + 4]`.
pub open spec fn be_u32_at(s: Seq<u8>, at: int) -> u32 {
    be_u32(s[at], s[at + 1], s[at + 2], s[at + 3])
}

/// The four big-endian bytes of `n`.
pub open spec fn u32_be(n: u32) -> Seq<u8> {
    seq![(n >> 24u32) as u8, (n >> 16u32) as u8, (n >> 8u32) as u8, n as u8]
}

pub proof fn lemma_u32_be_round_trip(n: u32)
    ensures
        u32_be(n).len() == 4,
        be_u32_at(u32_be(n), 0) == n,
{
    let b = u32_be(n);
    assert(b[0] == (n >> 24u32) as u8);
    assert(b[1] == (n >> 16u32) as u8);
    assert(b[2] == (n >> 8u32) as u8);
    assert(b[3] == n as u8);
    assert(((((n >> 24u32) as u8) as u32) << 24u32) | ((((n >> 16u32) as u8) as u32) << 16u32)
        | ((((n >> 8u32) as u8) as u32) << 8u32) | ((n as u8) as u32) == n) by (bit_vector);
}

/// The wire frame of a message: a big-endian length that counts the id and
/// the payload, the id, then the payload.
pub open spec fn frame(id: u8, payload: Seq<u8>) -> Seq<u8> {
    u32_be((payload.len() + 1) as u32) + seq![id] + payload
}

/// The first message of a byte stream, as `(id, payload, bytes consumed)`.
/// Keep-alive frames (a length of zero) before it are consumed silently;
/// `None` while the stream does not yet hold a whole message.
pub open spec fn decode_frame(data: Seq<u8>) -> Option<(u8, Seq<u8>, int)>
    decreases data.len(),
{
    if data.len() < 4 {
        None
    } else {
        let n = be_u32_at(data, 0) as int;
        if n == 0 {
            match decode_frame(data.subrange(4, data.len() as int)) {
                Some(r) => Some((r.0, r.1, r.2 + 4)),
                None => None,
            }
        } else if data.len() < 4 + n {
            None
        } else {
            Some((data[4], data.subrange(5, 4 + n), 4 + n))
        }
    }
}

/// A frame decodes to the message that it was made from, whatever follows
/// it in the stream; a message without payload takes five bytes.
pub proof fn lemma_frame_round_trip(id: u8, payload: Seq<u8>, rest: Seq<u8>)
    requires
        payload.len() < u32::MAX,
    ensures
        decode_frame(frame(id, payload) + rest) == Some(
            (id, payload, frame(id, payload).len() as int),
        ),
        frame(id, payload).len() == payload.len() + 5,
        payload.len() == 0 ==> frame(id, payload).len() == 5,
{
    let n = (payload.len() + 1) as u32;
    lemma_u32_be_round_trip(n);
    let f = frame(id, payload);
    let s = f + rest;
    assert(s[0] == f[0] && s[1] == f[1] && s[2] == f[2] && s[3] == f[3]);
    assert(f[0] == u32_be(n)[0] && f[1] == u32_be(n)[1] && f[2] == u32_be(n)[2] && f[3]
        == u32_be(n)[3]);
    assert(be_u32_at(s, 0) == n);
    assert(s.subrange(5, 4 + n as int) =~= payload);
    assert(s[4] == id);
}

/// A keep-alive frame in front of a stream is consumed silently: the same
/// message comes out, four bytes further on.
pub proof fn lemma_keep_alive_skipped(rest: Seq<u8>)
    ensures
        decode_frame(seq![0u8, 0u8, 0u8, 0u8] + rest) == match decode_frame(rest) {
            Some(r) => Some((r.0, r.1, r.2 + 4)),
            None => None,
        },
{
    let s = seq![0u8, 0u8, 0u8, 0u8] + rest;
    assert(s[0] == 0 && s[1] == 0 && s[2] == 0 && s[3] == 0);
    assert(be_u32(0, 0, 0, 0) == 0) by (bit_vector);
    assert(s.subrange(4, s.len() as int) =~= rest);
}

/// A keep-alive frame followed by the frame of a message decodes to that
/// message, with the keep-alive's four bytes counted as used.
pub proof fn lemma_keep_alive_then_frame(id: u8, payload: Seq<u8>, rest: Seq<u8>)
    requires
        payload.len() < u32::MAX,
    ensures
        decode_frame(seq![0u8, 0u8, 0u8, 0u8] + frame(id, payload) + rest) == Some(
            (id, payload, frame(id, payload).len() + 4int),
        ),
{
    let tail = frame(id, payload) + rest;
    lemma_frame_round_trip(id, payload, rest);
    lemma_keep_alive_skipped(tail);
    assert(seq![0u8, 0u8, 0u8, 0u8] + frame(id, payload) + rest =~= seq![0u8, 0u8, 0u8, 0u8]
        + tail);
}

/// One peer wire message: its id and its payload.
#[derive(Debug, PartialEq, Eq)]
pub struct Message {
    pub id: MessageId,
    pub payload: Vec<u8>,
}

/// Why a `have` or `piece` payload was refused.
#[derive(Debug, Clone, Copy, PartialEq, Eq, Structural)]
pub enum MessageError {
    /// A `have` payload that is not exactly four bytes.
    HaveLength,
    /// A `piece` payload shorter than its eight-byte header.
    PayloadTooShort,
    /// A `piece` for another piece than the one being downloaded.
    IndexMismatch,
    /// A block offset at or past the end of the piece.
    BeginOutOfRange,
    /// A block that runs past the end of the piece.
    BlockTooLong,
}

fn push_u32_be(buf: &mut Vec<u8>, n: u32)
    ensures
        final(buf)@ == old(buf)@ + u32_be(n),
{
    buf.push((n >> 24u32) as u8);
    buf.push((n >> 16u32) as u8);
    buf.push((n >> 8u32) as u8);
    buf.push(n as u8);
    assert(final(buf)@ =~= old(buf)@ + u32_be(n));
}

/// Reads the big-endian integer at `data[at..at + 4]`.
pub fn read_be_u32(data: &Vec<u8>, at: usize) -> (r: u32)
    requires
        at + 4 <= data@.len(),
    ensures
        r == be_u32_at(data@, at as int),
{
    let _len: usize = data.len();
    ((data[at] as u32) << 24u32) | ((data[at + 1] as u32) << 16u32) | ((data[at + 2] as u32)
        << 8u32) | (data[at + 3] as u32)
}

impl Message {
    /// The wire frame of this message: `<length><id><payload>`.
    pub fn serialize(&self) -> (r: Vec<u8>)
        requires
            self.payload@.len() < u32::MAX,
        ensures
            r@ == frame(self.id, self.payload@),
    {
        let length: u32 = self.payload.len() as u32 + 1;
        let mut buf: Vec<u8> = Vec::new();
        push_u32_be(&mut buf, length);
        buf.push(self.id);
        let mut i: usize = 0;
        while i < self.payload.len()
            invariant
                i <= self.payload@.len(),
                buf@ == u32_be(length) + seq![self.id] + self.payload@.subrange(0, i as int),
            decreases self.payload@.len() - i,
        {
            buf.push(self.payload[i]);
            i = i + 1;
            assert(buf@ =~= u32_be(length) + seq![self.id] + self.payload@.subrange(0, i as int));
        }
        assert(self.payload@.subrange(0, i as int) =~= self.payload@);
        buf
    }
}

/// The message whose id sits at `data[at]` and whose payload fills
/// `data[at + 1..end]`.
fn message_at(data: &Vec<u8>, at: usize, end: usize) -> (m: Message)
    requires
        at < end <= data@.len(),
    ensures
        m.id == data@[at as int],
        m.payload@ == data@.subrange(at + 1, end as int),
{
    let mut payload: Vec<u8> = Vec::new();
    let mut i: usize = at + 1;
    while i < end
        invariant
            at < i <= end,
            end <= data@.len(),
            payload@ == data@.subrange(at + 1, i as int),
        decreases end - i,
    {
        payload.push(data[i]);
        i = i + 1;
        assert(payload@ =~= data@.subrange(at + 1, i as int));
    }
    Message { id: data[at], payload }
}

/// Builds the message from one whole frame `<length><id><payload>` with a
/// non-zero length.
pub fn new_message(data: Vec<u8>) -> (m: Message)
    requires
        data@.len() >= 5,
        be_u32_at(data@, 0) >= 1,
        4 + be_u32_at(data@, 0) <= data@.len(),
    ensures
        m.id == data@[4],
        m.payload@ == data@.subrange(5, 4 + be_u32_at(data@, 0)),
{
    let _len: usize = data.len();
    let length: u32 = read_be_u32(&data, 0);
    message_at(&data, 4, 4 + length as usize)
}

/// Takes the first message out of a byte stream, skipping keep-alive frames
/// in front of it, and says how many bytes it used; `None` while the stream
/// holds no whole message yet.
pub fn next_message(data: &Vec<u8>) -> (r: Option<(Message, usize)>)
    ensures
        match decode_frame(data@) {
            Some(d) => match r {
                Some(p) => p.0.id == d.0 && p.0.payload@ == d.1 && p.1 == d.2,
                None => false,
            },
            None => r is None,
        },
{
    let mut pos: usize = 0;
    assert(data@.subrange(0, data@.len() as int) =~= data@);
    while data.len() - pos >= 4
        invariant
            pos <= data@.len(),
            decode_frame(data@) == match decode_frame(data@.subrange(pos as int, data@.len() as int)) {
                Some(d) => Some((d.0, d.1, d.2 + pos)),
                None => None,
            },
        decreases data@.len() - pos,
    {
        let ghost rest = data@.subrange(pos as int, data@.len() as int);
        let length: u32 = read_be_u32(data, pos);
        assert(be_u32_at(rest, 0) == length);
        if length == 0 {
            assert(rest.subrange(4, rest.len() as int) =~= data@.subrange(
                pos + 4,
                data@.len() as int,
            ));
            pos = pos + 4;
        } else if data.len() - pos - 4 < length as usize {
            return None;
        } else {
            let end: usize = pos + 4 + length as usize;
            let m = message_at(data, pos + 4, end);
            assert(rest.subrange(5, 4 + length as int) =~= data@.subrange(
                pos + 5,
                end as int,
            ));
            return Some((m, end));
        }
    }
    None
}

/// The piece index announced by a `have` message.
pub fn parse_have(msg: Message) -> (r: Result<u32, MessageError>)
    ensures
        msg.payload@.len() == 4 ==> r == Ok::<u32, MessageError>(be_u32_at(msg.payload@, 0)),
        msg.payload@.len() != 4 ==> r == Err::<u32, MessageError>(MessageError::HaveLength),
{
    if msg.payload.len() != 4 {
        return Err(MessageError::HaveLength);
    }
    Ok(read_be_u32(&msg.payload, 0))
}

/// What a `piece` message does to the buffer of piece `index`, which holds
/// `buf_len` bytes: the number of block bytes that it brings, or why it is
/// refused. The payload is `<index><begin><block>`.
pub open spec fn piece_outcome(index: u32, buf_len: int, p: Seq<u8>) -> Result<u32, MessageError> {
    if p.len() < 8 {
        Err(MessageError::PayloadTooShort)
    } else if be_u32_at(p, 0) != index {
        Err(MessageError::IndexMismatch)
    } else if be_u32_at(p, 4) >= buf_len {
        Err(MessageError::BeginOutOfRange)
    } else if be_u32_at(p, 4) + (p.len() - 8) > buf_len {
        Err(MessageError::BlockTooLong)
    } else {
        Ok((p.len() - 8) as u32)
    }
}

/// The piece buffer with the block of payload `p` written at its offset.
pub open spec fn piece_written(buf: Seq<u8>, p: Seq<u8>) -> Seq<u8> {
    let begin = be_u32_at(p, 4) as int;
    let block = p.subrange(8, p.len() as int);
    buf.subrange(0, begin) + block + buf.subrange(begin + block.len(), buf.len() as int)
}

/// Copies the block of a `piece` message for piece `index` into `buf` at the
/// offset that the message gives, and returns the number of bytes copied. A
/// refused message leaves `buf` as it was.
pub fn parse_piece(index: u32, buf: &mut Vec<u8>, msg: Message) -> (r: Result<u32, MessageError>)
    requires
        msg.payload@.len() <= u32::MAX,
    ensures
        r == piece_outcome(index, old(buf)@.len() as int, msg.payload@),
        r is Ok ==> final(buf)@ == piece_written(old(buf)@, msg.payload@),
        r is Err ==> final(buf)@ == old(buf)@,
{
    let p = &msg.payload;
    let plen: usize = p.len();
    if plen < 8 {
        return Err(MessageError::PayloadTooShort);
    }
    let parsed_index: u32 = read_be_u32(p, 0);
    if parsed_index != index {
        return Err(MessageError::IndexMismatch);
    }
    let begin: u32 = read_be_u32(p, 4);
    let blen: usize = buf.len();
    if begin as usize >= blen {
        return Err(MessageError::BeginOutOfRange);
    }
    let n: usize = plen - 8;
    if n > blen - begin as usize {
        return Err(MessageError::BlockTooLong);
    }
    let start: usize = begin as usize;
    let mut i: usize = 0;
    while i < n
        invariant
            i <= n,
            n == p@.len() - 8,
            plen == p@.len(),
            start + n <= blen,
            blen == old(buf)@.len(),
            buf@.len() == blen,
            forall|k: int|
                0 <= k < blen ==> #[trigger] buf@[k] == if start <= k < start + i {
                    p@[8 + k - start]
                } else {
                    old(buf)@[k]
                },
        decreases n - i,
    {
        buf.set(start + i, p[8 + i]);
        i = i + 1;
    }
    assert(buf@ =~= piece_written(old(buf)@, p@));
    Ok(n as u32)
}

/// A `have` message that announces piece `index`.
pub fn format_have(index: i64) -> (m: Message)
    requires
        0 <= index <= u32::MAX,
    ensures
        m.id == MSG_HAVE,
        m.payload@ == u32_be(index as u32),
{
    let mut payload: Vec<u8> = Vec::new();
    push_u32_be(&mut payload, index as u32);
    assert(payload@ =~= u32_be(index as u32));
    Message { id: MSG_HAVE, payload }
}

/// A `request` message for `length` bytes of piece `index` from offset
/// `begin`.
pub fn format_request(index: i64, begin: i64, length: i64) -> (m: Message)
    requires
        0 <= index <= u32::MAX,
        0 <= begin <= u32::MAX,
        0 <= length <= u32::MAX,
    ensures
        m.id == MSG_REQUEST,
        m.payload@ == u32_be(index as u32) + u32_be(begin as u32) + u32_be(length as u32),
{
    let mut payload: Vec<u8> = Vec::new();
    push_u32_be(&mut payload, index as u32);
    push_u32_be(&mut payload, begin as u32);
    push_u32_be(&mut payload, length as u32);
    assert(payload@ =~= u32_be(index as u32) + u32_be(begin as u32) + u32_be(length as u32));
    Message { id: MSG_REQUEST, payload }
}

} // verus!
