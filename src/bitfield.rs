use vstd::prelude::*;

verus! {

/// Whether bit `k` of byte `b` is set, counting from the most significant
/// bit (`k == 0`) to the least significant one (`k == 7`).
pub open spec fn bit_of(b: u8, k: int) -> bool {
    (b >> ((7 - k) as u8)) & 1u8 == 1u8
}

/// Whether the global bit `i` of a byte array is set: bit `7 - i % 8` of
/// byte `i / 8`. Indices past the end of the array are never set.
pub open spec fn has_bit(bytes: Seq<u8>, i: int) -> bool {
    0 <= i < 8 * bytes.len() && bit_of(bytes[i / 8], i % 8)
}

/// The byte array with the global bit `i` switched on; an index past the
/// end leaves the array as it is.
pub open spec fn with_bit(bytes: Seq<u8>, i: int) -> Seq<u8> {
    if 0 <= i < 8 * bytes.len() {
        bytes.update(i / 8, bytes[i / 8] | (1u8 << ((7 - i % 8) as u8)))
    } else {
        bytes
    }
}

proof fn lemma_bit_after_or(b: u8, k: u8, m: u8)
    requires
        k < 8,
        m < 8,
    ensures
        bit_of(b | (1u8 << (7 - k) as u8), m as int) == (m == k || bit_of(b, m as int)),
{
    let s: u8 = (7 - k) as u8;
    let t: u8 = (7 - m) as u8;
    assert(((b | (1u8 << s)) >> t) & 1u8 == 1u8 <==> (t == s || (b >> t) & 1u8 == 1u8))
        by (bit_vector)
        requires
            s < 8,
            t < 8,
    ;
}

/// Setting bit `i` of an array that covers it turns that bit on and leaves
/// every other bit as it was.
pub proof fn lemma_set_then_has(bytes: Seq<u8>, i: int, j: int)
    requires
        0 <= i < 8 * bytes.len(),
    ensures
        has_bit(with_bit(bytes, i), i),
        j != i ==> has_bit(with_bit(bytes, i), j) == has_bit(bytes, j),
        with_bit(bytes, i).len() == bytes.len(),
{
    let nb = with_bit(bytes, i);
    lemma_bit_after_or(bytes[i / 8], (i % 8) as u8, (i % 8) as u8);
    if 0 <= j < 8 * bytes.len() && j / 8 == i / 8 {
        lemma_bit_after_or(bytes[i / 8], (i % 8) as u8, (j % 8) as u8);
    }
}

/// The set of pieces that a peer advertises, packed one bit per piece with
/// the most significant bit of each byte first.
#[derive(Debug, PartialEq, Eq)]
pub struct Bitfield {
    pub array: Vec<u8>,
}

impl View for Bitfield {
    type V = Seq<u8>;

    open spec fn view(&self) -> Seq<u8> {
        self.array@
    }
}

impl Bitfield {
    /// A bitfield over the given bytes, as received in a `bitfield` message.
    pub fn new(array: Vec<u8>) -> (r: Bitfield)
        ensures
            r@ == array@,
    {
        Bitfield { array }
    }

    /// Whether the piece `index` is advertised; false past the end.
    pub fn has_piece(&self, index: usize) -> (r: bool)
        ensures
            r == has_bit(self@, index as int),
    {
        let byte_index: usize = index / 8;
        let offset: usize = index % 8;
        if byte_index >= self.array.len() {
            return false;
        }
        let b: u8 = self.array[byte_index];
        let shift: u8 = (7 - offset) as u8;
        assert(((b >> shift) & 1u8 != 0u8) == ((b >> shift) & 1u8 == 1u8)) by (bit_vector);
        (b >> shift) & 1 != 0
    }

    /// Marks the piece `index` as advertised; an index past the end is
    /// ignored.
    pub fn set_piece(&mut self, index: usize)
        ensures
            final(self)@ == with_bit(old(self)@, index as int),
            forall|j: int|
                #![trigger has_bit(final(self)@, j)]
                j != index ==> has_bit(final(self)@, j) == has_bit(old(self)@, j),
            index < 8 * old(self)@.len() ==> has_bit(final(self)@, index as int),
    {
        let byte_index: usize = index / 8;
        let offset: usize = index % 8;
        if byte_index >= self.array.len() {
            return;
        }
        let shift: u8 = (7 - offset) as u8;
        let b: u8 = self.array[byte_index] | (1u8 << shift);
        self.array.set(byte_index, b);
        proof {
            assert forall|j: int|
                #![trigger has_bit(self@, j)]
                j != index ==> has_bit(self@, j) == has_bit(old(self)@, j) by {
                lemma_set_then_has(old(self)@, index as int, j);
            }
            lemma_set_then_has(old(self)@, index as int, index as int);
        }
    }
}

} // verus!
