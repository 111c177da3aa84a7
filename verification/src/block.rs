//! Blocks and the proof-of-work miner: a block is sealed by a nonce whose
//! hash commitment meets the difficulty target.

use crate::difficulty::{meets_difficulty, DifficultyTarget};
use crate::digest::{commitment_spec, compute_commitment};
use vstd::prelude::*;

verus! {

/// A mining attempt that ran out of nonces.
#[derive(Clone, Copy, Debug, PartialEq, Eq, Structural)]
pub enum MineError {
    /// Every nonce in the 128-bit search space was tried and none produced a
    /// hash meeting the difficulty target.
    NonceSpaceExhausted,
}

/// One block of the chain: immutable application data plus the link to its
/// predecessor and the proof-of-work certificate.
#[derive(Clone, Debug)]
pub struct Block {
    /// Position in the chain, counted from 0 at the genesis block.
    pub index: u64,
    /// Opaque application data.
    pub payload: Vec<u8>,
    /// Hash of the preceding block; all zero bytes for the genesis block.
    pub previous_hash: [u8; 32],
    /// Proof-of-work search variable.
    pub nonce: u128,
    /// Hash commitment of {index, payload, previous_hash, nonce}.
    pub hash: [u8; 32],
}

impl Block {
    /// The commitment this block's fields hash to.
    pub open spec fn spec_commitment(self) -> Seq<u8> {
        commitment_spec(self.index, self.payload@, self.previous_hash@, self.nonce)
    }

    /// A block is hash-consistent when its stored hash equals the commitment
    /// recomputed over its own fields.
    pub open spec fn hash_consistent(self) -> bool {
        self.hash@ == self.spec_commitment()
    }

    /// Recomputes the hash commitment over this block's fields (with its
    /// stored nonce); the stored `hash` field plays no part.
    pub fn calculate_hash(&self) -> (r: [u8; 32])
        ensures
            r@ == self.spec_commitment(),
    {
        compute_commitment(self.index, &self.payload, &self.previous_hash, self.nonce)
    }

    /// Proof-of-work search: tries nonces from 0 upward and returns the first
    /// block whose commitment meets `difficulty`. Fails only if the whole
    /// 128-bit nonce space is exhausted.
    pub fn mine(
        index: u64,
        payload: Vec<u8>,
        previous_hash: [u8; 32],
        difficulty: DifficultyTarget,
    ) -> (r: Result<Block, MineError>)
        ensures
            match r {
                Ok(b) => {
                    &&& b.index == index
                    &&& b.payload@ == payload@
                    &&& b.previous_hash@ == previous_hash@
                    &&& b.hash_consistent()
                    &&& meets_difficulty(b.hash@, difficulty.spec_zero_bytes())
                    &&& forall|m: u128|
                        m < b.nonce ==> !meets_difficulty(
                            commitment_spec(index, payload@, previous_hash@, m),
                            difficulty.spec_zero_bytes(),
                        )
                },
                Err(e) => {
                    &&& e == MineError::NonceSpaceExhausted
                    &&& forall|m: u128|
                        !meets_difficulty(
                            commitment_spec(index, payload@, previous_hash@, m),
                            difficulty.spec_zero_bytes(),
                        )
                },
            },
    {
        let mut nonce: u128 = 0;
        while nonce < u128::MAX
            invariant
                forall|m: u128|
                    m < nonce ==> !meets_difficulty(
                        commitment_spec(index, payload@, previous_hash@, m),
                        difficulty.spec_zero_bytes(),
                    ),
            decreases u128::MAX - nonce,
        {
            let h = compute_commitment(index, &payload, &previous_hash, nonce);
            if difficulty.is_met(&h) {
                return Ok(Block { index, payload, previous_hash, nonce, hash: h });
            }
            nonce = nonce + 1;
        }
        let h = compute_commitment(index, &payload, &previous_hash, u128::MAX);
        if difficulty.is_met(&h) {
            return Ok(Block { index, payload, previous_hash, nonce: u128::MAX, hash: h });
        }
        proof {
            assert forall|m: u128|
                !meets_difficulty(
                    commitment_spec(index, payload@, previous_hash@, m),
                    difficulty.spec_zero_bytes(),
                ) by {
                if m < u128::MAX {
                } else {
                    assert(m == u128::MAX);
                }
            }
        }
        Err(MineError::NonceSpaceExhausted)
    }
}

/// Determinism of the hash commitment: two blocks whose committed fields are
/// equal commit to exactly the same 32 bytes, however often the commitment
/// is recomputed.
pub proof fn lemma_commitment_deterministic(a: Block, b: Block)
    requires
        a.index == b.index,
        a.payload@ == b.payload@,
        a.previous_hash@ == b.previous_hash@,
        a.nonce == b.nonce,
    ensures
        a.spec_commitment() == b.spec_commitment(),
{
}

} // verus!
