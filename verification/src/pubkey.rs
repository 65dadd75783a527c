//! Account addresses.
use vstd::prelude::*;

verus! {

/// A 32-byte account address, held as four 64-bit words (little-endian
/// byte order within each word, first word first). The all-zero key is the
/// default key, which marks an unused slot.
#[derive(Clone, Copy, Debug, PartialEq, Eq, Structural)]
pub struct Pubkey {
    pub w0: u64,
    pub w1: u64,
    pub w2: u64,
    pub w3: u64,
}

/// The all-zero key.
pub open spec fn default_key() -> Pubkey {
    Pubkey { w0: 0, w1: 0, w2: 0, w3: 0 }
}

/// Byte `j` (0 to 31) of the key: the words in order, each least
/// significant byte first.
pub open spec fn key_byte(k: Pubkey, j: int) -> u8 {
    let w = if j < 8 {
        k.w0
    } else if j < 16 {
        k.w1
    } else if j < 24 {
        k.w2
    } else {
        k.w3
    };
    ((w >> ((8 * (j % 8)) as u64)) & 0xff) as u8
}

/// The 32 bytes of the key.
pub open spec fn key_bytes(k: Pubkey) -> Seq<u8> {
    Seq::new(32, |j: int| key_byte(k, j))
}

impl Pubkey {
    /// The key with these four words.
    pub fn new(w0: u64, w1: u64, w2: u64, w3: u64) -> (r: Pubkey)
        ensures
            r == (Pubkey { w0, w1, w2, w3 }),
    {
        Pubkey { w0, w1, w2, w3 }
    }

    /// The 32 bytes of the key.
    pub fn to_bytes(&self) -> (r: [u8; 32])
        ensures
            r@ == key_bytes(*self),
    {
        broadcast use vstd::array::group_array_axioms;

        let words: [u64; 4] = [self.w0, self.w1, self.w2, self.w3];
        let mut out: [u8; 32] = [0u8; 32];
        for i in 0..32
            invariant
                words@ == seq![self.w0, self.w1, self.w2, self.w3],
                forall|j: int| 0 <= j < i ==> out@[j] == key_byte(*self, j),
        {
            let w = words[i / 8];
            out[i] = ((w >> ((8 * (i % 8)) as u64)) & 0xff) as u8;
        }
        assert(out@ =~= key_bytes(*self));
        out
    }

    /// Whether this is the all-zero key.
    pub fn is_default(&self) -> (r: bool)
        ensures
            r == (*self == default_key()),
    {
        self.w0 == 0 && self.w1 == 0 && self.w2 == 0 && self.w3 == 0
    }
}

impl Default for Pubkey {
    /// The all-zero key.
    fn default() -> (r: Pubkey)
        ensures
            r == default_key(),
    {
        Pubkey { w0: 0, w1: 0, w2: 0, w3: 0 }
    }
}

} // verus!
