use vstd::prelude::*;
use vstd::string::StringExecFns;
use vstd::utf8::encode_utf8;

use crate::digest::{sha1_digest, sha1_of};
use crate::handshake::copy_20;
use crate::p2p::{IpAddress, Peer, PEER_ID_STRING};

verus! {

/// A DHT node of a metainfo file: host and port.
#[derive(Debug)]
pub struct Node(pub String, pub i64);

/// One file of a multi-file metainfo.
#[derive(Debug)]
pub struct File {
    pub path: Vec<String>,
    pub length: i64,
    pub md5sum: Option<String>,
}

/// The `info` dictionary of a metainfo file.
#[derive(Debug)]
pub struct BencodeInfo {
    pub name: String,
    pub pieces: Vec<u8>,
    pub piece_length: i64,
    pub md5sum: Option<String>,
    pub length: Option<i64>,
    pub files: Option<Vec<File>>,
    pub private: Option<u8>,
    pub path: Option<Vec<String>>,
    pub root_hash: Option<String>,
}

/// A decoded metainfo file.
#[derive(Debug)]
pub struct BencodeTorrent {
    pub info: BencodeInfo,
    pub announce: Option<String>,
    pub nodes: Option<Vec<Node>>,
    pub encoding: Option<String>,
    pub httpseeds: Option<Vec<String>>,
    pub announce_list: Option<Vec<Vec<String>>>,
    pub creation_date: Option<i64>,
    pub comment: Option<String>,
    pub created_by: Option<String>,
}

/// A decoded tracker response; `peers` is the compact peer list.
#[derive(Debug)]
pub struct BencodeTrackerResp {
    pub interval: i64,
    pub peers: Vec<u8>,
}

/// What the download needs to know of a single-file torrent.
#[derive(Debug)]
pub struct Torrent {
    pub announce: String,
    pub name: String,
    pub length: i64,
    pub info_hash: [u8; 20],
    pub piece_length: i64,
    pub piece_hashes: Vec<[u8; 20]>,
}

/// Why a metainfo file does not describe a usable torrent.
#[derive(Debug, Clone, Copy, PartialEq, Eq, Structural)]
pub enum InvalidTorrentError {
    /// The piece digests do not split into 20-byte digests.
    WrongNumberOfPieces,
    /// There is no tracker URL.
    MissingAnnounce,
    /// There is no total length (a multi-file torrent).
    MissingLength,
    /// The piece length is not positive.
    InvalidPieceLength,
    /// The total length is negative, or too large to be split into pieces.
    InvalidLength,
    /// The number of digests is not the number of pieces.
    PieceCountMismatch,
}

/// Why a tracker response could not be used.
#[derive(Debug, Clone, Copy, PartialEq, Eq, Structural)]
pub enum TrackerError {
    /// The compact peer list is not a whole number of six-byte entries.
    InvalidPeerResponse,
}

/// The number of pieces of `piece_length` bytes that cover `length` bytes.
pub open spec fn piece_count(length: int, piece_length: int) -> int {
    (length + piece_length - 1) / piece_length
}

/// The byte range `[begin, end)` of piece `index`: the last piece may be
/// shorter than the others.
pub open spec fn piece_bounds(piece_length: int, length: int, index: int) -> (int, int) {
    let begin = index * piece_length;
    (begin, if begin + piece_length > length {
        length
    } else {
        begin + piece_length
    })
}

/// The 20-byte digests in `pieces`, in order.
pub open spec fn split_digests(pieces: Seq<u8>) -> Seq<Seq<u8>> {
    Seq::new((pieces.len() / 20) as nat, |i: int| pieces.subrange(20 * i, 20 * i + 20))
}

impl Torrent {
    /// A positive piece length, a digest for each piece, and room in `i64`
    /// for the end of every piece.
    pub open spec fn wf(&self) -> bool {
        &&& self.piece_length > 0
        &&& self.length >= 0
        &&& self.length + self.piece_length <= i64::MAX
        &&& self.piece_hashes@.len() == piece_count(self.length as int, self.piece_length as int)
    }

    /// The byte range `[begin, end)` of piece `index` in the whole payload.
    pub fn calculate_bounds_for_piece(&self, index: i64) -> (r: (i64, i64))
        requires
            index >= 0,
            self.piece_length >= 0,
            index * self.piece_length + self.piece_length <= i64::MAX,
        ensures
            r.0 == piece_bounds(self.piece_length as int, self.length as int, index as int).0,
            r.1 == piece_bounds(self.piece_length as int, self.length as int, index as int).1,
    {
        proof {
            assert(0 <= index * self.piece_length) by (nonlinear_arith)
                requires
                    index >= 0,
                    self.piece_length >= 0,
            ;
        }
        let begin: i64 = index * self.piece_length;
        let mut end: i64 = begin + self.piece_length;
        if end > self.length {
            end = self.length;
        }
        (begin, end)
    }

    /// The number of bytes of piece `index`.
    pub fn calculate_piece_size(&self, index: i64) -> (r: i64)
        requires
            index >= 0,
            self.piece_length >= 0,
            index * self.piece_length + self.piece_length <= i64::MAX,
            self.length >= 0,
        ensures
            r == piece_bounds(self.piece_length as int, self.length as int, index as int).1
                - piece_bounds(self.piece_length as int, self.length as int, index as int).0,
    {
        let (begin, end) = self.calculate_bounds_for_piece(index);
        end - begin
    }
}

/// Each piece of a well-formed torrent starts inside the payload, and its
/// end, computed before it is cut at the payload's end, fits in `i64`.
pub proof fn lemma_piece_in_payload(length: int, piece_length: int, index: int)
    requires
        piece_length > 0,
        length >= 0,
        0 <= index < piece_count(length, piece_length),
    ensures
        0 <= index * piece_length < length,
        index * piece_length + piece_length <= length + piece_length - 1,
{
    vstd::arithmetic::div_mod::lemma_fundamental_div_mod(length + piece_length - 1, piece_length);
    let q = (length + piece_length - 1) / piece_length;
    let rem = (length + piece_length - 1) % piece_length;
    assert(index * piece_length + piece_length <= length + piece_length - 1) by (nonlinear_arith)
        requires
            0 <= index < q,
            piece_length * q + rem == length + piece_length - 1,
            0 <= rem,
            piece_length > 0,
    ;
    assert(0 <= index * piece_length) by (nonlinear_arith)
        requires
            index >= 0,
            piece_length > 0,
    ;
}

impl BencodeTrackerResp {
    /// The peers of a compact peer list: six bytes each, an IPv4 address
    /// and a big-endian port.
    pub fn get_peers(&self) -> (r: Result<Vec<Peer>, TrackerError>)
        ensures
            self.peers@.len() % 6 != 0 <==> r is Err,
            match r {
                Ok(v) => v@.len() == self.peers@.len() / 6 && forall|i: int|
                    #![trigger v@[i]]
                    0 <= i < v@.len() ==> {
                        &&& v@[i].ip matches IpAddress::V4(a)
                        &&& a@ == self.peers@.subrange(6 * i, 6 * i + 4)
                        &&& v@[i].port as int == self.peers@[6 * i + 4] * 256 + self.peers@[6 * i
                            + 5]
                    },
                Err(e) => e == TrackerError::InvalidPeerResponse,
            },
    {
        let peers = &self.peers;
        let len: usize = peers.len();
        if len % 6 != 0 {
            return Err(TrackerError::InvalidPeerResponse);
        }
        let num_peers: usize = len / 6;
        let mut out: Vec<Peer> = Vec::new();
        let mut i: usize = 0;
        while i < num_peers
            invariant
                i <= num_peers,
                num_peers == peers@.len() / 6,
                len == peers@.len(),
                len % 6 == 0,
                out@.len() == i,
                forall|k: int|
                    #![trigger out@[k]]
                    0 <= k < i ==> {
                        &&& out@[k].ip matches IpAddress::V4(a)
                        &&& a@ == peers@.subrange(6 * k, 6 * k + 4)
                        &&& out@[k].port as int == peers@[6 * k + 4] * 256 + peers@[6 * k + 5]
                    },
            decreases num_peers - i,
        {
            let offset: usize = i * 6;
            let ip: [u8; 4] = [peers[offset], peers[offset + 1], peers[offset + 2], peers[offset + 3]];
            let port: u16 = (peers[offset + 4] as u16) * 256 + peers[offset + 5] as u16;
            assert(ip@ =~= peers@.subrange(6 * i, 6 * i + 4));
            out.push(Peer { ip: IpAddress::V4(ip), port });
            i = i + 1;
        }
        Ok(out)
    }
}

impl BencodeInfo {
    /// The info hash: the SHA-1 digest of the bencoded `info` dictionary.
    pub fn calculate_info_hash(info_bencoded: &Vec<u8>) -> (r: [u8; 20])
        ensures
            r@ == sha1_digest(info_bencoded@),
    {
        sha1_of(info_bencoded.as_slice())
    }

    /// The piece digests, 20 bytes each, in order.
    pub fn split_piece_hashes(&self) -> (r: Result<Vec<[u8; 20]>, InvalidTorrentError>)
        ensures
            self.pieces@.len() % 20 != 0 <==> r is Err,
            match r {
                Ok(v) => v@.len() == self.pieces@.len() / 20 && forall|i: int|
                    #![trigger v@[i]]
                    0 <= i < v@.len() ==> v@[i]@ == split_digests(self.pieces@)[i],
                Err(e) => e == InvalidTorrentError::WrongNumberOfPieces,
            },
    {
        let pieces = &self.pieces;
        let len: usize = pieces.len();
        if len % 20 != 0 {
            return Err(InvalidTorrentError::WrongNumberOfPieces);
        }
        let n: usize = len / 20;
        let mut hash_list: Vec<[u8; 20]> = Vec::new();
        let mut i: usize = 0;
        while i < n
            invariant
                i <= n,
                n == pieces@.len() / 20,
                len == pieces@.len(),
                len % 20 == 0,
                hash_list@.len() == i,
                forall|k: int|
                    #![trigger hash_list@[k]]
                    0 <= k < i ==> hash_list@[k]@ == split_digests(pieces@)[k],
            decreases n - i,
        {
            let h = copy_20(pieces, i * 20);
            hash_list.push(h);
            i = i + 1;
        }
        Ok(hash_list)
    }
}

/// Whether `form_urlencoded` writes byte `b` as it is.
pub open spec fn form_unreserved(b: u8) -> bool {
    b == 42 || b == 45 || b == 46 || (48 <= b <= 57) || (65 <= b <= 90) || b == 95 || (97 <= b
        <= 122)
}

/// The upper-case hexadecimal digit of `d < 16`.
pub open spec fn hex_digit(d: u8) -> char {
    if d < 10 {
        (48 + d) as char
    } else {
        (55 + d) as char
    }
}

/// How one byte is written in `application/x-www-form-urlencoded` form: an
/// unreserved byte as itself, a space as `+`, any other byte as `%XX`.
pub open spec fn form_encoded_byte(b: u8) -> Seq<char> {
    if form_unreserved(b) {
        seq![b as char]
    } else if b == 32 {
        seq!['+']
    } else {
        seq!['%', hex_digit(b / 16), hex_digit(b % 16)]
    }
}

/// A byte string in `application/x-www-form-urlencoded` form.
pub open spec fn form_encoded(bytes: Seq<u8>) -> Seq<char>
    decreases bytes.len(),
{
    if bytes.len() == 0 {
        Seq::empty()
    } else {
        form_encoded_byte(bytes[0]) + form_encoded(bytes.drop_first())
    }
}

/// The decimal digits of a natural number.
pub open spec fn decimal_digits(n: nat) -> Seq<char>
    decreases n,
{
    if n < 10 {
        seq![(48 + n) as char]
    } else {
        decimal_digits(n / 10) + seq![(48 + n % 10) as char]
    }
}

/// An integer in decimal, with a leading `-` when it is negative.
pub open spec fn decimal(n: int) -> Seq<char> {
    if n < 0 {
        seq!['-'] + decimal_digits((-n) as nat)
    } else {
        decimal_digits(n as nat)
    }
}

/// The tracker announce URL: the announce address with the query that
/// names the swarm, this client, its port, what it has exchanged so far and
/// the bytes that it still needs.
pub open spec fn tracker_url(announce: Seq<char>, info_hash: Seq<u8>, left: int) -> Seq<char> {
    announce + "?info_hash="@ + form_encoded(info_hash) + "&peer_id="@ + form_encoded(
        encode_utf8(PEER_ID_STRING@),
    ) + "&port=6881&uploaded=0&downloaded=0&compact=1&left="@ + decimal(left)
}

/// Declares `url::ParseError`, the error type of a tracker URL, which this
/// library only carries.
#[verifier::external_type_specification]
#[verifier::external_body]
pub struct ExUrlParseError(url::ParseError);

/// Relies on `url::form_urlencoded::byte_serialize`, collected into a
/// string: unreserved bytes as they are, a space as `+`, any other byte as
/// `%XX` with upper-case hexadecimal digits.
#[verifier::external_body]
fn url_encode(bytes: &[u8]) -> (r: String)
    ensures
        r@ == form_encoded(bytes@),
{
    url::form_urlencoded::byte_serialize(bytes).collect()
}

/// Relies on the `Display` impl of `i64`, through `ToString::to_string`:
/// the decimal digits, with a leading `-` for a negative number.
#[verifier::external_body]
fn decimal_string(n: i64) -> (r: String)
    ensures
        r@ == decimal(n as int),
{
    n.to_string()
}

impl Torrent {
    /// The URL of the announce request to the tracker.
    pub fn build_tracker_url(&self) -> (r: Result<String, url::ParseError>)
        ensures
            r matches Ok(u) && u@ == tracker_url(self.announce@, self.info_hash@, self.length as int),
    {
        let info_hash_encoded = url_encode(self.info_hash.as_slice());
        let peer_id_encoded = url_encode(PEER_ID_STRING.as_bytes());
        let left = decimal_string(self.length);
        let mut url: String = self.announce.as_str().to_owned();
        url.append("?info_hash=");
        url.append(info_hash_encoded.as_str());
        url.append("&peer_id=");
        url.append(peer_id_encoded.as_str());
        url.append("&port=6881&uploaded=0&downloaded=0&compact=1&left=");
        url.append(left.as_str());
        Ok(url)
    }
}

/// The torrent that a metainfo file describes; `info_bencoded` is the
/// bencoded `info` dictionary, whose digest is the info hash. The file is
/// refused when it has no tracker URL or total length, when its digests do
/// not split into 20-byte digests, when its lengths are out of range, or
/// when it has not one digest per piece, in that order.
pub fn new_torrent(bencode_torrent: &BencodeTorrent, info_bencoded: &Vec<u8>) -> (r: Result<
    Torrent,
    InvalidTorrentError,
>)
    ensures
        match new_torrent_outcome(bencode_torrent) {
            Err(e) => r matches Err(e2) && e2 == e,
            Ok(_) => match r {
                Ok(t) => {
                    let info = bencode_torrent.info;
                    &&& t.wf()
                    &&& bencode_torrent.announce matches Some(a) && t.announce@ == a@
                    &&& t.name@ == info.name@
                    &&& info.length == Some(t.length)
                    &&& t.info_hash@ == sha1_digest(info_bencoded@)
                    &&& t.piece_length == info.piece_length
                    &&& t.piece_hashes@.len() == split_digests(info.pieces@).len()
                    &&& forall|i: int|
                        #![trigger t.piece_hashes@[i]]
                        0 <= i < t.piece_hashes@.len() ==> t.piece_hashes@[i]@ == split_digests(
                            info.pieces@,
                        )[i]
                },
                Err(_) => false,
            },
        },
{
    let announce = match &bencode_torrent.announce {
        Some(a) => a.as_str().to_owned(),
        None => {
            return Err(InvalidTorrentError::MissingAnnounce);
        },
    };
    let info = &bencode_torrent.info;
    let length: i64 = match info.length {
        Some(l) => l,
        None => {
            return Err(InvalidTorrentError::MissingLength);
        },
    };
    let piece_hashes = match info.split_piece_hashes() {
        Ok(h) => h,
        Err(e) => {
            return Err(e);
        },
    };
    let piece_length: i64 = info.piece_length;
    if piece_length <= 0 {
        return Err(InvalidTorrentError::InvalidPieceLength);
    }
    if length < 0 || length > i64::MAX - piece_length {
        return Err(InvalidTorrentError::InvalidLength);
    }
    let count: i64 = (length + piece_length - 1) / piece_length;
    if piece_hashes.len() as u64 != count as u64 {
        return Err(InvalidTorrentError::PieceCountMismatch);
    }
    let info_hash = BencodeInfo::calculate_info_hash(info_bencoded);
    Ok(
        Torrent {
            announce,
            name: info.name.as_str().to_owned(),
            length,
            info_hash,
            piece_length,
            piece_hashes,
        },
    )
}

/// Which error, if any, `new_torrent` gives for a metainfo file.
pub open spec fn new_torrent_outcome(bt: &BencodeTorrent) -> Result<(), InvalidTorrentError> {
    let info = bt.info;
    if bt.announce is None {
        Err(InvalidTorrentError::MissingAnnounce)
    } else if info.length is None {
        Err(InvalidTorrentError::MissingLength)
    } else if info.pieces@.len() % 20 != 0 {
        Err(InvalidTorrentError::WrongNumberOfPieces)
    } else if info.piece_length <= 0 {
        Err(InvalidTorrentError::InvalidPieceLength)
    } else if info.length->Some_0 < 0 || info.length->Some_0 + info.piece_length > i64::MAX {
        Err(InvalidTorrentError::InvalidLength)
    } else if info.pieces@.len() / 20 != piece_count(
        info.length->Some_0 as int,
        info.piece_length as int,
    ) {
        Err(InvalidTorrentError::PieceCountMismatch)
    } else {
        Ok(())
    }
}

} // verus!
