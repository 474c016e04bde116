//! Block hashes as plain values.
use vstd::prelude::*;
use crate::keyed::Key;

verus! {

/// A 32-byte block hash, held as four little-endian words.
#[derive(Clone, Copy, Debug, PartialEq, Eq, Structural)]
pub struct BlockHash {
    pub w0: u64,
    pub w1: u64,
    pub w2: u64,
    pub w3: u64,
}

/// The number that eight bytes spell, lowest byte first.
pub open spec fn le_word(b: Seq<u8>) -> int
    recommends
        b.len() == 8,
{
    b[0] + 0x100 * b[1] + 0x1_0000 * b[2] + 0x100_0000 * b[3] + 0x1_0000_0000 * b[4]
        + 0x100_0000_0000 * b[5] + 0x1_0000_0000_0000 * b[6] + 0x100_0000_0000_0000 * b[7]
}

/// Byte `k` of a word, lowest first.
pub open spec fn word_byte(w: u64, k: int) -> u8
    recommends
        0 <= k < 8,
{
    if k == 0 {
        (w % 0x100) as u8
    } else if k == 1 {
        (w / 0x100 % 0x100) as u8
    } else if k == 2 {
        (w / 0x1_0000 % 0x100) as u8
    } else if k == 3 {
        (w / 0x100_0000 % 0x100) as u8
    } else if k == 4 {
        (w / 0x1_0000_0000 % 0x100) as u8
    } else if k == 5 {
        (w / 0x100_0000_0000 % 0x100) as u8
    } else if k == 6 {
        (w / 0x1_0000_0000_0000 % 0x100) as u8
    } else {
        (w / 0x100_0000_0000_0000 % 0x100) as u8
    }
}

impl BlockHash {
    /// Word `j` of the hash.
    pub open spec fn word(self, j: int) -> u64 {
        if j == 0 {
            self.w0
        } else if j == 1 {
            self.w1
        } else if j == 2 {
            self.w2
        } else {
            self.w3
        }
    }

    /// The hash that 32 bytes spell.
    pub open spec fn spells(self, b: Seq<u8>) -> bool {
        &&& self.w0 == le_word(b.subrange(0, 8))
        &&& self.w1 == le_word(b.subrange(8, 16))
        &&& self.w2 == le_word(b.subrange(16, 24))
        &&& self.w3 == le_word(b.subrange(24, 32))
    }

    /// The 32 bytes of the hash.
    pub open spec fn bytes(self) -> Seq<u8> {
        Seq::new(32, |i: int| word_byte(self.word(i / 8), i % 8))
    }

    /// Build from the 32 hash bytes.
    pub fn from_byte_array(b: [u8; 32]) -> (r: BlockHash)
        ensures
            r.spells(b@),
    {
        BlockHash {
            w0: word_from(&b, 0),
            w1: word_from(&b, 8),
            w2: word_from(&b, 16),
            w3: word_from(&b, 24),
        }
    }

    /// The 32 hash bytes.
    pub fn to_byte_array(&self) -> (r: [u8; 32])
        ensures
            r@ == self.bytes(),
    {
        let w: [u64; 4] = [self.w0, self.w1, self.w2, self.w3];
        let mut r: [u8; 32] = [0u8; 32];
        let mut i: usize = 0;
        while i < 32
            invariant
                i <= 32,
                w@ == seq![self.w0, self.w1, self.w2, self.w3],
                forall|j: int| 0 <= j < i ==> #[trigger] r@[j] == word_byte(self.word(j / 8), j % 8),
            decreases 32 - i,
        {
            let word: u64 = w[i / 8];
            assert(word == self.word(i as int / 8));
            r[i] = byte_at(word, i % 8);
            i = i + 1;
        }
        assert(r@ =~= self.bytes());
        r
    }

    /// The all-zero hash (the sentinel before the first block).
    pub open spec fn spec_zero() -> BlockHash {
        BlockHash { w0: 0, w1: 0, w2: 0, w3: 0 }
    }

    /// The all-zero hash (the sentinel before the first block).
    pub fn zero() -> (r: BlockHash)
        ensures
            r == BlockHash::spec_zero(),
    {
        BlockHash { w0: 0, w1: 0, w2: 0, w3: 0 }
    }

    /// True for the all-zero hash.
    pub fn is_zero(&self) -> (b: bool)
        ensures
            b == (*self == BlockHash::spec_zero()),
    {
        self.w0 == 0 && self.w1 == 0 && self.w2 == 0 && self.w3 == 0
    }
}

impl Key for BlockHash {
    fn same(&self, other: &Self) -> (b: bool) {
        *self == *other
    }
}

fn word_from(b: &[u8; 32], at: usize) -> (w: u64)
    requires
        at + 8 <= 32,
    ensures
        w == le_word(b@.subrange(at as int, at + 8)),
{
    b[at] as u64 + 0x100 * (b[at + 1] as u64) + 0x1_0000 * (b[at + 2] as u64) + 0x100_0000 * (b[at
        + 3] as u64) + 0x1_0000_0000 * (b[at + 4] as u64) + 0x100_0000_0000 * (b[at + 5] as u64)
        + 0x1_0000_0000_0000 * (b[at + 6] as u64) + 0x100_0000_0000_0000 * (b[at + 7] as u64)
}

fn byte_at(w: u64, k: usize) -> (r: u8)
    requires
        k < 8,
    ensures
        r == word_byte(w, k as int),
{
    if k == 0 {
        (w % 0x100) as u8
    } else if k == 1 {
        (w / 0x100 % 0x100) as u8
    } else if k == 2 {
        (w / 0x1_0000 % 0x100) as u8
    } else if k == 3 {
        (w / 0x100_0000 % 0x100) as u8
    } else if k == 4 {
        (w / 0x1_0000_0000 % 0x100) as u8
    } else if k == 5 {
        (w / 0x100_0000_0000 % 0x100) as u8
    } else if k == 6 {
        (w / 0x1_0000_0000_0000 % 0x100) as u8
    } else {
        (w / 0x100_0000_0000_0000 % 0x100) as u8
    }
}

proof fn lemma_word_bytes(w: u64)
    ensures
        le_word(Seq::new(8, |k: int| word_byte(w, k))) == w,
{
    let q1 = w / 0x100;
    let q2 = w / 0x1_0000;
    let q3 = w / 0x100_0000;
    let q4 = w / 0x1_0000_0000;
    let q5 = w / 0x100_0000_0000;
    let q6 = w / 0x1_0000_0000_0000;
    let q7 = w / 0x100_0000_0000_0000;
    assert(w == 0x100 * q1 + w % 0x100);
    assert(q1 == 0x100 * q2 + q1 % 0x100) by (nonlinear_arith)
        requires
            q1 == w / 0x100,
            q2 == w / 0x1_0000,
    ;
    assert(q2 == 0x100 * q3 + q2 % 0x100) by (nonlinear_arith)
        requires
            q2 == w / 0x1_0000,
            q3 == w / 0x100_0000,
    ;
    assert(q3 == 0x100 * q4 + q3 % 0x100) by (nonlinear_arith)
        requires
            q3 == w / 0x100_0000,
            q4 == w / 0x1_0000_0000,
    ;
    assert(q4 == 0x100 * q5 + q4 % 0x100) by (nonlinear_arith)
        requires
            q4 == w / 0x1_0000_0000,
            q5 == w / 0x100_0000_0000,
    ;
    assert(q5 == 0x100 * q6 + q5 % 0x100) by (nonlinear_arith)
        requires
            q5 == w / 0x100_0000_0000,
            q6 == w / 0x1_0000_0000_0000,
    ;
    assert(q6 == 0x100 * q7 + q6 % 0x100) by (nonlinear_arith)
        requires
            q6 == w / 0x1_0000_0000_0000,
            q7 == w / 0x100_0000_0000_0000,
    ;
    assert(q7 % 0x100 == q7);
    let b = Seq::new(8, |k: int| word_byte(w, k));
    assert(b[0] == w % 0x100 && b[1] == q1 % 0x100 && b[2] == q2 % 0x100 && b[3] == q3 % 0x100);
    assert(b[4] == q4 % 0x100 && b[5] == q5 % 0x100 && b[6] == q6 % 0x100 && b[7] == q7 % 0x100);
}

/// Reading the bytes of a hash and spelling them again gives the same hash.
pub proof fn law_hash_bytes_round_trip(h: BlockHash, back: BlockHash)
    requires
        back.spells(h.bytes()),
    ensures
        back == h,
{
    let b = h.bytes();
    lemma_word_bytes(h.w0);
    lemma_word_bytes(h.w1);
    lemma_word_bytes(h.w2);
    lemma_word_bytes(h.w3);
    assert(b.subrange(0, 8) =~= Seq::new(8, |k: int| word_byte(h.w0, k)));
    assert(b.subrange(8, 16) =~= Seq::new(8, |k: int| word_byte(h.w1, k)));
    assert(b.subrange(16, 24) =~= Seq::new(8, |k: int| word_byte(h.w2, k)));
    assert(b.subrange(24, 32) =~= Seq::new(8, |k: int| word_byte(h.w3, k)));
}

} // verus!
