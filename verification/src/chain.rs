//! The chain: an append-only sequence of blocks whose linkage, indices,
//! difficulty and hash consistency are re-validated on every append.

use crate::block::Block;
use crate::difficulty::{meets_difficulty, DifficultyTarget};
use vstd::prelude::*;

verus! {

/// The previous-hash value of a block with no predecessor: 32 zero bytes.
pub open spec fn zero_hash() -> Seq<u8> {
    Seq::new(32, |i: int| 0u8)
}

/// The hash a candidate block must link to: the tip's hash, or all zero
/// bytes when the chain is empty.
pub open spec fn spec_tip_hash(s: Seq<Block>) -> Seq<u8> {
    if s.len() == 0 {
        zero_hash()
    } else {
        s.last().hash@
    }
}

/// The previous-hash value block `i` of `s` must carry.
pub open spec fn spec_expected_previous(s: Seq<Block>, i: int) -> Seq<u8> {
    if i == 0 {
        zero_hash()
    } else {
        s[i - 1].hash@
    }
}

/// Block `i` of `s` is valid under difficulty `d`: its index is its
/// position, it links to its predecessor's hash (or to zero bytes at the
/// genesis position), its hash meets the difficulty, and its hash is the
/// commitment recomputed over its own fields.
pub open spec fn spec_block_valid_at(s: Seq<Block>, d: nat, i: int) -> bool {
    &&& s[i].index as int == i
    &&& s[i].previous_hash@ == spec_expected_previous(s, i)
    &&& meets_difficulty(s[i].hash@, d)
    &&& s[i].hash_consistent()
}

/// Every block of `s` is valid under difficulty `d`.
pub open spec fn spec_chain_valid(s: Seq<Block>, d: nat) -> bool {
    forall|i: int| 0 <= i < s.len() ==> spec_block_valid_at(s, d, i)
}

/// Why an append was rejected, or what a validation walk found wrong at one
/// block: each variant names the first constraint that failed.
#[derive(Clone, Copy, Debug, PartialEq, Eq, Structural)]
pub enum AppendError {
    /// The block's index is not the next position of the chain.
    BadIndex,
    /// The block's previous_hash is not the hash of the current tip (or not
    /// zero at the genesis position).
    BadLinkage,
    /// The block's hash does not meet the difficulty target.
    BelowDifficulty,
    /// The block's stored hash is not the commitment recomputed over its
    /// fields.
    HashMismatch,
}

/// The first invariant violation a validation walk found: which block, and
/// which constraint.
#[derive(Clone, Copy, Debug, PartialEq, Eq, Structural)]
pub struct ValidationError {
    /// Position of the offending block.
    pub index: usize,
    /// The first constraint that block breaks.
    pub kind: AppendError,
}

/// The first constraint that block `i` of `s` breaks under difficulty `d`,
/// checked in the same order as an append checks a candidate.
pub open spec fn spec_violation_at(s: Seq<Block>, d: nat, i: int) -> Option<AppendError> {
    if s[i].index as int != i {
        Some(AppendError::BadIndex)
    } else if s[i].previous_hash@ != spec_expected_previous(s, i) {
        Some(AppendError::BadLinkage)
    } else if !meets_difficulty(s[i].hash@, d) {
        Some(AppendError::BelowDifficulty)
    } else if !s[i].hash_consistent() {
        Some(AppendError::HashMismatch)
    } else {
        None
    }
}

/// An append-only sequence of mined blocks together with the difficulty
/// every block must meet. Mutated only through `append`, which re-validates
/// the candidate before committing it; never truncated or reordered.
pub struct Chain {
    blocks: Vec<Block>,
    difficulty: DifficultyTarget,
}

impl View for Chain {
    type V = Seq<Block>;

    closed spec fn view(&self) -> Seq<Block> {
        self.blocks@
    }
}

/// Compares two 32-byte hashes.
fn bytes32_eq(a: &[u8; 32], b: &[u8; 32]) -> (r: bool)
    ensures
        r == (a@ == b@),
{
    let mut i: usize = 0;
    while i < 32
        invariant
            i <= 32,
            forall|j: int| 0 <= j < i ==> a@[j] == b@[j],
        decreases 32 - i,
    {
        if a[i] != b[i] {
            proof {
                assert(a@[i as int] != b@[i as int]);
            }
            return false;
        }
        i = i + 1;
    }
    proof {
        assert(a@ =~= b@);
    }
    true
}

impl Chain {
    /// The difficulty every block of this chain must meet, as a count of
    /// required leading zero bytes.
    pub closed spec fn spec_difficulty(&self) -> nat {
        self.difficulty.spec_zero_bytes()
    }

    /// The chain invariant: every block is valid at its position under this
    /// chain's difficulty.
    pub open spec fn wf(&self) -> bool {
        spec_chain_valid(self@, self.spec_difficulty())
    }

    /// A new, empty chain with the given difficulty target.
    pub fn new(difficulty: DifficultyTarget) -> (r: Chain)
        ensures
            r@.len() == 0,
            r.spec_difficulty() == difficulty.spec_zero_bytes(),
            r.wf(),
    {
        Chain { blocks: Vec::new(), difficulty }
    }

    /// Wraps an arbitrary sequence of blocks (for instance one read back
    /// from storage) as a chain, without validating it; `validate` decides
    /// whether the result is a well-formed chain.
    pub fn from_blocks(blocks: Vec<Block>, difficulty: DifficultyTarget) -> (r: Chain)
        ensures
            r@ == blocks@,
            r.spec_difficulty() == difficulty.spec_zero_bytes(),
    {
        Chain { blocks, difficulty }
    }

    /// The difficulty target this chain was created with.
    pub fn difficulty(&self) -> (r: DifficultyTarget)
        ensures
            r.spec_zero_bytes() == self.spec_difficulty(),
    {
        self.difficulty
    }

    /// Number of blocks in the chain.
    pub fn len(&self) -> (r: usize)
        ensures
            r == self@.len(),
    {
        self.blocks.len()
    }

    /// The block at position `i`.
    pub fn get(&self, i: usize) -> (r: &Block)
        requires
            i < self@.len(),
        ensures
            *r == self@[i as int],
    {
        &self.blocks[i]
    }

    /// The most recently appended block, or nothing for an empty chain.
    pub fn tip(&self) -> (r: Option<&Block>)
        ensures
            match r {
                Some(b) => self@.len() > 0 && *b == self@.last(),
                None => self@.len() == 0,
            },
    {
        if self.blocks.len() == 0 {
            None
        } else {
            Some(&self.blocks[self.blocks.len() - 1])
        }
    }

    /// Appends `candidate` if and only if it carries the next index, links
    /// to the current tip's hash (or zero bytes on an empty chain), meets
    /// the difficulty target, and hashes to its own stored hash; otherwise
    /// rejects it with the first failed constraint and leaves the chain
    /// unchanged.
    pub fn append(&mut self, candidate: Block) -> (r: Result<(), AppendError>)
        requires
            old(self).wf(),
        ensures
            final(self).wf(),
            final(self).spec_difficulty() == old(self).spec_difficulty(),
            r.is_ok() <==> {
                &&& candidate.index as int == old(self)@.len()
                &&& candidate.previous_hash@ == spec_tip_hash(old(self)@)
                &&& meets_difficulty(candidate.hash@, old(self).spec_difficulty())
                &&& candidate.hash_consistent()
            },
            match r {
                Ok(()) => final(self)@ == old(self)@.push(candidate),
                Err(e) => {
                    &&& final(self)@ == old(self)@
                    &&& (e == AppendError::BadIndex <==> candidate.index as int != old(
                        self,
                    )@.len())
                    &&& (e == AppendError::BadLinkage <==> candidate.index as int == old(
                        self,
                    )@.len() && candidate.previous_hash@ != spec_tip_hash(old(self)@))
                    &&& (e == AppendError::BelowDifficulty <==> candidate.index as int == old(
                        self,
                    )@.len() && candidate.previous_hash@ == spec_tip_hash(old(self)@)
                        && !meets_difficulty(candidate.hash@, old(self).spec_difficulty()))
                    &&& (e == AppendError::HashMismatch <==> candidate.index as int == old(
                        self,
                    )@.len() && candidate.previous_hash@ == spec_tip_hash(old(self)@)
                        && meets_difficulty(candidate.hash@, old(self).spec_difficulty())
                        && !candidate.hash_consistent())
                },
            },
    {
        if candidate.index != self.blocks.len() as u64 {
            return Err(AppendError::BadIndex);
        }
        let expected_previous: [u8; 32] = if self.blocks.len() == 0 {
            [0u8; 32]
        } else {
            self.blocks[self.blocks.len() - 1].hash
        };
        proof {
            if self.blocks.len() == 0 {
                assert(expected_previous@ =~= spec_tip_hash(self@));
            }
        }
        if !bytes32_eq(&candidate.previous_hash, &expected_previous) {
            return Err(AppendError::BadLinkage);
        }
        if !self.difficulty.is_met(&candidate.hash) {
            return Err(AppendError::BelowDifficulty);
        }
        let recomputed = candidate.calculate_hash();
        if !bytes32_eq(&candidate.hash, &recomputed) {
            return Err(AppendError::HashMismatch);
        }
        proof {
            lemma_valid_chain_extends(self@, self.spec_difficulty(), candidate);
        }
        self.blocks.push(candidate);
        Ok(())
    }

    /// Walks the whole chain and reports the first invariant violation, with
    /// the index of the offending block; succeeds exactly on well-formed
    /// chains. Independent of the append path: every hash is recomputed.
    pub fn validate(&self) -> (r: Result<(), ValidationError>)
        ensures
            r.is_ok() <==> self.wf(),
            match r {
                Ok(()) => self.wf(),
                Err(e) => {
                    &&& e.index < self@.len()
                    &&& spec_violation_at(self@, self.spec_difficulty(), e.index as int)
                        == Some(e.kind)
                    &&& forall|j: int|
                        0 <= j < e.index ==> spec_block_valid_at(
                            self@,
                            self.spec_difficulty(),
                            j,
                        )
                },
            },
    {
        let n = self.blocks.len();
        let mut i: usize = 0;
        while i < n
            invariant
                n == self@.len(),
                i <= n,
                forall|j: int| 0 <= j < i ==> spec_block_valid_at(self@, self.spec_difficulty(), j),
            decreases n - i,
        {
            let b = &self.blocks[i];
            if b.index != i as u64 {
                proof {
                    assert(!spec_block_valid_at(self@, self.spec_difficulty(), i as int));
                }
                return Err(ValidationError { index: i, kind: AppendError::BadIndex });
            }
            let expected_previous: [u8; 32] = if i == 0 {
                [0u8; 32]
            } else {
                self.blocks[i - 1].hash
            };
            proof {
                if i == 0 {
                    assert(expected_previous@ =~= spec_expected_previous(self@, i as int));
                }
            }
            if !bytes32_eq(&b.previous_hash, &expected_previous) {
                proof {
                    assert(!spec_block_valid_at(self@, self.spec_difficulty(), i as int));
                }
                return Err(ValidationError { index: i, kind: AppendError::BadLinkage });
            }
            if !self.difficulty.is_met(&b.hash) {
                proof {
                    assert(!spec_block_valid_at(self@, self.spec_difficulty(), i as int));
                }
                return Err(ValidationError { index: i, kind: AppendError::BelowDifficulty });
            }
            let recomputed = b.calculate_hash();
            if !bytes32_eq(&b.hash, &recomputed) {
                proof {
                    assert(!spec_block_valid_at(self@, self.spec_difficulty(), i as int));
                }
                return Err(ValidationError { index: i, kind: AppendError::HashMismatch });
            }
            i = i + 1;
        }
        Ok(())
    }
}

/// Pushing a block that carries the next index, links to the tip's hash,
/// meets the difficulty and is hash-consistent preserves chain validity.
proof fn lemma_valid_chain_extends(s: Seq<Block>, d: nat, c: Block)
    requires
        spec_chain_valid(s, d),
        c.index as int == s.len(),
        c.previous_hash@ == spec_tip_hash(s),
        meets_difficulty(c.hash@, d),
        c.hash_consistent(),
    ensures
        spec_chain_valid(s.push(c), d),
{
    let t = s.push(c);
    assert forall|i: int| 0 <= i < t.len() implies spec_block_valid_at(t, d, i) by {
        if i < s.len() {
            assert(spec_block_valid_at(s, d, i));
            assert(t[i] == s[i]);
            if i > 0 {
                assert(t[i - 1] == s[i - 1]);
            }
        } else {
            assert(t[i] == c);
            if i > 0 {
                assert(t[i - 1] == s[i - 1]);
                assert(spec_block_valid_at(s, d, i - 1));
            }
        }
    }
}

/// Chain linkage: in a valid chain every block after the first carries its
/// predecessor's hash as its previous_hash and an index one above its
/// predecessor's, and the genesis block carries all zero bytes.
pub proof fn lemma_chain_linkage(s: Seq<Block>, d: nat, i: int)
    requires
        spec_chain_valid(s, d),
        0 <= i < s.len(),
    ensures
        i > 0 ==> s[i].previous_hash@ == s[i - 1].hash@,
        i > 0 ==> s[i].index == s[i - 1].index + 1,
        i == 0 ==> s[i].previous_hash@ == zero_hash(),
        i == 0 ==> s[i].index == 0,
{
    assert(spec_block_valid_at(s, d, i));
    if i > 0 {
        assert(spec_block_valid_at(s, d, i - 1));
    }
}

} // verus!
