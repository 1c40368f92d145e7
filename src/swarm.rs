use vstd::prelude::*;

use crate::digest::sha1_digest;
use crate::p2p::{check_integrity, integrity_holds, PieceResult, PieceWork};
use crate::torrent::{lemma_piece_in_payload, piece_bounds, piece_count, Torrent};

verus! {

/// The start of piece `i` of torrent `t` in the payload.
pub open spec fn piece_begin(t: &Torrent, i: int) -> int {
    piece_bounds(t.piece_length as int, t.length as int, i).0
}

/// The end of piece `i` of torrent `t` in the payload.
pub open spec fn piece_end(t: &Torrent, i: int) -> int {
    piece_bounds(t.piece_length as int, t.length as int, i).1
}

/// The work queue's first contents: one unit per piece, in order, with the
/// piece's digest and length.
pub fn build_work_queue(t: &Torrent) -> (r: Vec<PieceWork>)
    requires
        t.wf(),
    ensures
        r@.len() == t.piece_hashes@.len(),
        forall|i: int|
            #![trigger r@[i]]
            0 <= i < r@.len() ==> r@[i].index == i && r@[i].hash == t.piece_hashes@[i]
                && r@[i].length == piece_end(t, i) - piece_begin(t, i),
{
    let n: usize = t.piece_hashes.len();
    let mut work: Vec<PieceWork> = Vec::new();
    let mut i: usize = 0;
    while i < n
        invariant
            t.wf(),
            i <= n,
            n == t.piece_hashes@.len(),
            work@.len() == i,
            forall|k: int|
                #![trigger work@[k]]
                0 <= k < i ==> work@[k].index == k && work@[k].hash == t.piece_hashes@[k]
                    && work@[k].length == piece_end(t, k) - piece_begin(t, k),
        decreases n - i,
    {
        proof {
            lemma_piece_in_payload(t.length as int, t.piece_length as int, i as int);
        }
        let length: i64 = t.calculate_piece_size(i as i64);
        work.push(PieceWork { index: i as i64, hash: t.piece_hashes[i], length });
        i = i + 1;
    }
    work
}

/// The number of `true` entries.
pub open spec fn count_true(s: Seq<bool>) -> nat
    decreases s.len(),
{
    if s.len() == 0 {
        0
    } else {
        count_true(s.drop_last()) + if s.last() {
            1nat
        } else {
            0nat
        }
    }
}

proof fn lemma_count_true_update(s: Seq<bool>, i: int)
    requires
        0 <= i < s.len(),
        !s[i],
    ensures
        count_true(s.update(i, true)) == count_true(s) + 1,
    decreases s.len(),
{
    let u = s.update(i, true);
    if i == s.len() - 1 {
        assert(u.drop_last() =~= s.drop_last());
    } else {
        assert(u.drop_last() =~= s.drop_last().update(i, true));
        lemma_count_true_update(s.drop_last(), i);
    }
}

proof fn lemma_count_true_full(s: Seq<bool>)
    ensures
        count_true(s) <= s.len(),
        count_true(s) == s.len() ==> forall|i: int| 0 <= i < s.len() ==> s[i],
    decreases s.len(),
{
    if s.len() > 0 {
        lemma_count_true_full(s.drop_last());
        if count_true(s) == s.len() {
            assert forall|i: int| 0 <= i < s.len() implies s[i] by {
                if i < s.len() - 1 {
                    assert(s.drop_last()[i] == s[i]);
                }
            }
        }
    }
}

proof fn lemma_count_true_all(s: Seq<bool>)
    requires
        forall|i: int| 0 <= i < s.len() ==> s[i],
    ensures
        count_true(s) == s.len(),
    decreases s.len(),
{
    if s.len() > 0 {
        lemma_count_true_all(s.drop_last());
    }
}

proof fn lemma_count_true_none(n: nat)
    ensures
        count_true(Seq::new(n, |k: int| false)) == 0,
    decreases n,
{
    if n > 0 {
        assert(Seq::new(n, |k: int| false).drop_last() =~= Seq::new((n - 1) as nat, |k: int| false));
        lemma_count_true_none((n - 1) as nat);
    }
}

/// Two different pieces cover disjoint ranges of the payload.
proof fn lemma_pieces_disjoint(t: &Torrent, i: int, j: int)
    requires
        t.wf(),
        0 <= i < j < piece_count(t.length as int, t.piece_length as int),
    ensures
        piece_end(t, i) <= piece_begin(t, j),
{
    let pl = t.piece_length as int;
    assert(i * pl + pl <= j * pl) by (nonlinear_arith)
        requires
            i < j,
            pl > 0,
    ;
}

/// Whether a delivered piece belongs at a place of the payload: its index
/// names a piece, its length is that piece's length and its digest is the
/// recorded one.
pub open spec fn result_fits(t: &Torrent, result: &PieceResult) -> bool {
    &&& 0 <= result.index < t.piece_hashes@.len()
    &&& result.buf@.len() == piece_end(t, result.index as int) - piece_begin(t, result.index as int)
    &&& integrity_holds(t.piece_hashes@[result.index as int]@, result.buf@)
}

/// The payload being assembled from the pieces that workers deliver: which
/// pieces are in place, and how many.
#[derive(Debug)]
pub struct Assembler {
    pub buf: Vec<u8>,
    pub placed: Vec<bool>,
    pub done: usize,
}

impl Assembler {
    /// The buffer spans the payload, one flag per piece, `done` counts the
    /// pieces in place, and each piece in place has its recorded digest.
    pub open spec fn wf(&self, t: &Torrent) -> bool {
        &&& self.buf@.len() == t.length
        &&& self.placed@.len() == t.piece_hashes@.len()
        &&& self.done == count_true(self.placed@)
        &&& forall|i: int|
            #![trigger self.placed@[i]]
            0 <= i < self.placed@.len() && self.placed@[i] ==> sha1_digest(
                self.buf@.subrange(piece_begin(t, i), piece_end(t, i)),
            ) == t.piece_hashes@[i]@
    }

    /// An empty payload of the torrent's length, with no piece in place.
    pub fn new(t: &Torrent) -> (r: Assembler)
        requires
            t.wf(),
            t.length <= usize::MAX,
        ensures
            r.wf(t),
            r.done == 0,
            r.buf@ == Seq::new(t.length as nat, |k: int| 0u8),
    {
        let len: usize = t.length as usize;
        let mut buf: Vec<u8> = Vec::new();
        let mut i: usize = 0;
        while i < len
            invariant
                i <= len,
                buf@ == Seq::new(i as nat, |k: int| 0u8),
            decreases len - i,
        {
            buf.push(0u8);
            i = i + 1;
            assert(buf@ =~= Seq::new(i as nat, |k: int| 0u8));
        }
        let n: usize = t.piece_hashes.len();
        let mut placed: Vec<bool> = Vec::new();
        let mut j: usize = 0;
        while j < n
            invariant
                j <= n,
                placed@ == Seq::new(j as nat, |k: int| false),
            decreases n - j,
        {
            placed.push(false);
            j = j + 1;
            assert(placed@ =~= Seq::new(j as nat, |k: int| false));
        }
        proof {
            lemma_count_true_none(n as nat);
        }
        Assembler { buf, placed, done: 0 }
    }

    /// Whether every piece is in place.
    pub fn is_complete(&self, t: &Torrent) -> (r: bool)
        requires
            self.wf(t),
        ensures
            r == (forall|i: int| 0 <= i < self.placed@.len() ==> self.placed@[i]),
    {
        proof {
            lemma_count_true_full(self.placed@);
            if forall|i: int| 0 <= i < self.placed@.len() ==> self.placed@[i] {
                lemma_count_true_all(self.placed@);
            }
        }
        self.done == self.placed.len()
    }

    /// Writes a delivered piece at its place in the payload. The piece is
    /// taken when its index names a piece, its length is that piece's length
    /// and its digest is the recorded one; otherwise nothing changes. A
    /// piece delivered twice is written twice, identically.
    pub fn add_result(&mut self, t: &Torrent, result: &PieceResult) -> (accepted: bool)
        requires
            t.wf(),
            old(self).wf(t),
        ensures
            final(self).wf(t),
            accepted == result_fits(t, result),
            accepted ==> {
                &&& final(self).buf@ == old(self).buf@.subrange(
                    0,
                    piece_begin(t, result.index as int),
                ) + result.buf@ + old(self).buf@.subrange(
                    piece_end(t, result.index as int),
                    t.length as int,
                )
                &&& final(self).placed@ == old(self).placed@.update(result.index as int, true)
            },
            !accepted ==> *final(self) == *old(self),
    {
        let n: usize = t.piece_hashes.len();
        if result.index < 0 || result.index as u64 >= n as u64 {
            return false;
        }
        let index: usize = result.index as usize;
        proof {
            lemma_piece_in_payload(t.length as int, t.piece_length as int, index as int);
        }
        let (begin, end) = t.calculate_bounds_for_piece(result.index);
        assert(index as int == result.index as int);
        assert(begin == piece_begin(t, index as int));
        assert(end == piece_end(t, index as int));
        let blen: usize = self.buf.len();
        assert(0 <= begin <= end <= blen);
        let size: usize = (end - begin) as usize;
        if result.buf.len() != size {
            return false;
        }
        let work = PieceWork { index: result.index, hash: t.piece_hashes[index], length: end - begin };
        if !check_integrity(&work, &result.buf) {
            return false;
        }
        let start: usize = begin as usize;
        let mut k: usize = 0;
        while k < size
            invariant
                t.wf(),
                old(self).wf(t),
                k <= size,
                size == result.buf@.len(),
                start + size <= self.buf@.len(),
                start == piece_begin(t, index as int),
                start + size == piece_end(t, index as int),
                self.buf@.len() == old(self).buf@.len(),
                blen == self.buf@.len(),
                self.placed == old(self).placed,
                self.done == old(self).done,
                forall|m: int|
                    0 <= m < self.buf@.len() ==> #[trigger] self.buf@[m] == if start <= m < start
                        + k {
                        result.buf@[m - start]
                    } else {
                        old(self).buf@[m]
                    },
            decreases size - k,
        {
            self.buf.set(start + k, result.buf[k]);
            k = k + 1;
        }
        assert(self.buf@.subrange(start as int, start + size) =~= result.buf@);
        assert(self.buf@ =~= old(self).buf@.subrange(0, start as int) + result.buf@ + old(
            self,
        ).buf@.subrange(start + size, t.length as int));
        let was_placed: bool = self.placed[index];
        self.placed.set(index, true);
        if !was_placed {
            proof {
                lemma_count_true_update(old(self).placed@, index as int);
                lemma_count_true_full(old(self).placed@);
            }
            self.done = self.done + 1;
        } else {
            assert(old(self).placed@.update(index as int, true) =~= old(self).placed@);
        }
        proof {
            assert forall|j: int|
                #![trigger self.placed@[j]]
                0 <= j < self.placed@.len() && self.placed@[j] implies sha1_digest(
                self.buf@.subrange(piece_begin(t, j), piece_end(t, j)),
            ) == t.piece_hashes@[j]@ by {
                if j != index {
                    assert(old(self).placed@[j]);
                    lemma_piece_in_payload(t.length as int, t.piece_length as int, j);
                    if j < index {
                        lemma_pieces_disjoint(t, j, index as int);
                    } else {
                        lemma_pieces_disjoint(t, index as int, j);
                    }
                    assert(self.buf@.subrange(piece_begin(t, j), piece_end(t, j)) =~= old(
                        self,
                    ).buf@.subrange(piece_begin(t, j), piece_end(t, j)));
                }
            }
        }
        true
    }

    /// The assembled payload.
    pub fn into_buf(self) -> (r: Vec<u8>)
        ensures
            r@ == self.buf@,
    {
        self.buf
    }
}

/// A result that a worker delivers for a unit of the work queue, with the
/// unit's index, a buffer of the unit's length and the unit's digest, is
/// one that the assembler takes.
pub proof fn lemma_delivered_piece_fits(t: &Torrent, pw: PieceWork, result: &PieceResult)
    requires
        t.wf(),
        0 <= pw.index < t.piece_hashes@.len(),
        pw.hash == t.piece_hashes@[pw.index as int],
        pw.length == piece_end(t, pw.index as int) - piece_begin(t, pw.index as int),
        result.index == pw.index,
        result.buf@.len() == pw.length,
        integrity_holds(pw.hash@, result.buf@),
    ensures
        result_fits(t, result),
{
}

/// Once every piece is in place, each piece's range of the payload has the
/// digest that the torrent records for it.
pub proof fn lemma_complete_assembly(a: &Assembler, t: &Torrent, i: int)
    requires
        t.wf(),
        a.wf(t),
        a.done == t.piece_hashes@.len(),
        0 <= i < t.piece_hashes@.len(),
    ensures
        sha1_digest(a.buf@.subrange(piece_begin(t, i), piece_end(t, i))) == t.piece_hashes@[i]@,
{
    lemma_count_true_full(a.placed@);
    assert(a.placed@[i]);
}

} // verus!
