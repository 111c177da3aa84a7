//! The difficulty target: how many leading bytes of a block's hash must be
//! zero for the block to count as mined.

use vstd::prelude::*;

verus! {

/// A hash `h` meets a difficulty of `d` leading zero bytes when `h` has at
/// least `d` bytes and each of its first `d` bytes is zero. A difficulty
/// larger than the digest length is unsatisfiable.
pub open spec fn meets_difficulty(hash: Seq<u8>, d: nat) -> bool {
    d <= hash.len() && forall|i: int| 0 <= i < d ==> hash[i] == 0u8
}

/// Process-wide mining configuration: the number of leading zero bytes a
/// block hash must have. Fixed at startup, never changed during a run.
#[derive(Clone, Copy, Debug, PartialEq, Eq, Structural)]
pub struct DifficultyTarget {
    /// Number of leading bytes of the 32-byte hash that must be zero.
    pub zero_bytes: usize,
}

impl DifficultyTarget {
    /// The difficulty as a mathematical count of required zero bytes.
    pub open spec fn spec_zero_bytes(self) -> nat {
        self.zero_bytes as nat
    }

    pub fn new(zero_bytes: usize) -> (r: DifficultyTarget)
        ensures
            r.zero_bytes == zero_bytes,
    {
        DifficultyTarget { zero_bytes }
    }

    /// Decides whether `hash` meets this target.
    pub fn is_met(&self, hash: &[u8; 32]) -> (r: bool)
        ensures
            r == meets_difficulty(hash@, self.spec_zero_bytes()),
    {
        if self.zero_bytes > 32 {
            return false;
        }
        let mut i: usize = 0;
        while i < self.zero_bytes
            invariant
                i <= self.zero_bytes,
                self.zero_bytes <= 32,
                forall|j: int| 0 <= j < i ==> hash@[j] == 0u8,
            decreases self.zero_bytes - i,
        {
            if hash[i] != 0 {
                return false;
            }
            i = i + 1;
        }
        true
    }
}

} // verus!
