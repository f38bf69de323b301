//! The ledger: an append-only sequence of sealed blocks, each linked to the
//! one before it by that block's hash.
use crate::block::{hash_consistent, meets_difficulty, seal_result, Block};
use vstd::prelude::*;

verus! {

/// The difficulty a ledger seals at unless told otherwise.
pub const DIFFICULTY: usize = 4;

/// The `previous_hash` of the genesis block, which has no predecessor.
pub open spec fn sentinel() -> Seq<char> {
    seq!['0']
}

/// The payload of the genesis block.
pub open spec fn genesis_payload() -> Seq<char> {
    seq!['G', 'e', 'n', 'e', 's', 'i', 's', ' ', 'B', 'l', 'o', 'c', 'k']
}

/// Block `i` names block `i - 1`'s hash as its predecessor.
pub open spec fn linked(c: Seq<Block>, i: int) -> bool {
    c[i].previous_hash@ == c[i - 1].hash@
}

/// The first `k` blocks pass validation: each hash is its block's digest, and
/// each block after the first is linked to its predecessor.
pub open spec fn prefix_valid(c: Seq<Block>, k: int) -> bool {
    forall|i: int|
        0 <= i < k ==> #[trigger] hash_consistent(c[i]) && (i > 0 ==> linked(c, i))
}

/// The whole chain passes validation.
pub open spec fn chain_valid(c: Seq<Block>) -> bool {
    prefix_valid(c, c.len() as int)
}

/// Every block of the chain meets `difficulty`.
pub open spec fn all_meet(c: Seq<Block>, difficulty: nat) -> bool {
    forall|i: int| 0 <= i < c.len() ==> meets_difficulty(#[trigger] c[i].hash@, difficulty)
}

/// Each block's index is its position.
pub open spec fn indexed(c: Seq<Block>) -> bool {
    forall|i: int| 0 <= i < c.len() ==> #[trigger] c[i].index == i
}

/// Why a chain fails validation, and at which position.
#[derive(PartialEq, Eq, Structural, Debug, Clone, Copy)]
pub enum ChainFault {
    /// The stored hash of the block there is not the digest of its fields.
    HashMismatch(usize),
    /// The block there does not name its predecessor's hash.
    LinkMismatch(usize),
}

/// The ledger. Its blocks are public, so that a holder can inspect, and
/// tamper with, them; `wf` states what appending keeps true.
pub struct Blockchain {
    /// The blocks, genesis first.
    pub chain: Vec<Block>,
    /// The number of leading zero digits a block's hash must have.
    pub difficulty: usize,
}

impl Blockchain {
    /// The ledger's invariant: a genesis block with the sentinel predecessor,
    /// indices equal to positions, every hash consistent with its block and
    /// meeting the difficulty, every block linked to the one before.
    pub open spec fn wf(&self) -> bool {
        let c = self.chain@;
        &&& c.len() >= 1
        &&& c[0].previous_hash@ == sentinel()
        &&& indexed(c)
        &&& chain_valid(c)
        &&& all_meet(c, self.difficulty as nat)
    }

    /// A ledger holding only its genesis block, stamped `timestamp` and sealed
    /// at `difficulty`; nothing when no nonce seals it.
    pub fn with_difficulty(difficulty: usize, timestamp: i64) -> (r: Option<Blockchain>)
        ensures
            genesis_result(r, difficulty, timestamp),
    {
        let data = String::from_str("Genesis Block");
        let previous_hash = String::from_str("0");
        proof {
            reveal_strlit("Genesis Block");
            reveal_strlit("0");
            assert(data@ =~= genesis_payload());
            assert(previous_hash@ =~= sentinel());
        }
        match Block::new(0, data, previous_hash, timestamp, difficulty) {
            Some(genesis) => {
                let mut chain: Vec<Block> = Vec::new();
                chain.push(genesis);
                Some(Blockchain { chain, difficulty })
            },
            None => None,
        }
    }

    /// A ledger at the default difficulty holding only its genesis block,
    /// stamped `timestamp`; nothing when no nonce seals it.
    pub fn new(timestamp: i64) -> (r: Option<Blockchain>)
        ensures
            genesis_result(r, DIFFICULTY, timestamp),
    {
        Blockchain::with_difficulty(DIFFICULTY, timestamp)
    }

    /// Seals `data` as the next block, stamped `timestamp` and linked to the
    /// current last block, and appends it; returns the new block. When no nonce
    /// seals it, returns nothing and leaves the ledger as it was.
    pub fn add_block(&mut self, data: String, timestamp: i64) -> (r: Option<&Block>)
        requires
            old(self).chain@.len() >= 1,
        ensures
            append_result(*old(self), *final(self), returned(r), data@, timestamp),
            old(self).wf() ==> final(self).wf(),
            forall|d: nat|
                d <= old(self).difficulty && #[trigger] all_meet(old(self).chain@, d) ==> all_meet(
                    final(self).chain@,
                    d,
                ),
    {
        let n = self.chain.len();
        let previous_hash = self.chain[n - 1].hash.clone();
        match Block::new(n as u64, data, previous_hash, timestamp, self.difficulty) {
            Some(block) => {
                self.chain.push(block);
                proof {
                    let o = old(self).chain@;
                    let c = self.chain@;
                    assert(c.subrange(0, n as int) =~= o);
                    assert forall|i: int| 0 <= i < n implies #[trigger] c[i] == o[i] by {
                        assert(c.subrange(0, n as int)[i] == c[i]);
                    }
                    assert(meets_difficulty(c[n as int].hash@, self.difficulty as nat));
                    assert forall|d: nat|
                        d <= old(self).difficulty && #[trigger] all_meet(o, d) implies all_meet(
                            c,
                            d,
                        ) by {
                        assert forall|i: int| 0 <= i < c.len() implies meets_difficulty(
                            #[trigger] c[i].hash@,
                            d,
                        ) by {
                            if i < n {
                                assert(o[i].hash@ == c[i].hash@);
                            }
                        }
                    }
                    if old(self).wf() {
                        assert forall|i: int| 0 <= i < c.len() implies #[trigger] hash_consistent(c[i])
                            && (i > 0 ==> linked(c, i)) by {
                            if i < n {
                                assert(hash_consistent(o[i]));
                                if i > 0 {
                                    assert(c[i - 1] == o[i - 1]);
                                }
                            }
                        }
                        assert forall|i: int| 0 <= i < c.len() implies #[trigger] c[i].index == i by {
                            if i < n {
                                assert(o[i].index == i);
                            }
                        }
                        assert(all_meet(c, self.difficulty as nat));
                    }
                }
                Some(&self.chain[n])
            },
            None => None,
        }
    }

    /// Scans the chain from the genesis block and reports the first failure:
    /// at each position the block's stored hash is checked against the digest
    /// of its fields first, then, past the genesis block, its link to the
    /// block before. Nothing is reported for a chain that passes.
    pub fn first_fault(&self) -> (r: Option<ChainFault>)
        ensures
            r is None <==> chain_valid(self.chain@),
            r matches Some(ChainFault::HashMismatch(k)) ==> k < self.chain@.len() && prefix_valid(
                self.chain@,
                k as int,
            ) && !hash_consistent(self.chain@[k as int]),
            r matches Some(ChainFault::LinkMismatch(k)) ==> 0 < k < self.chain@.len()
                && prefix_valid(self.chain@, k as int) && hash_consistent(self.chain@[k as int])
                && !linked(self.chain@, k as int),
    {
        let mut i: usize = 0;
        while i < self.chain.len()
            invariant
                i <= self.chain@.len(),
                prefix_valid(self.chain@, i as int),
            decreases self.chain@.len() - i,
        {
            let block = &self.chain[i];
            let recomputed = block.calculate_hash();
            if !(block.hash == recomputed) {
                proof {
                    if chain_valid(self.chain@) {
                        assert(hash_consistent(self.chain@[i as int]));
                    }
                }
                return Some(ChainFault::HashMismatch(i));
            }
            if i > 0 && !(block.previous_hash == self.chain[i - 1].hash) {
                proof {
                    if chain_valid(self.chain@) {
                        assert(hash_consistent(self.chain@[i as int]));
                    }
                }
                return Some(ChainFault::LinkMismatch(i));
            }
            proof {
                assert forall|j: int| 0 <= j < i + 1 implies #[trigger] hash_consistent(
                    self.chain@[j],
                ) && (j > 0 ==> linked(self.chain@, j)) by {
                    if j < i {
                        assert(hash_consistent(self.chain@[j]));
                    } else {
                        assert(block.hash@ == recomputed@);
                    }
                }
                assert(prefix_valid(self.chain@, i + 1));
            }
            i = i + 1;
        }
        None
    }

    /// Tells whether every block's stored hash is the digest of its fields and
    /// every block past the genesis block names its predecessor's hash.
    pub fn is_valid(&self) -> (r: bool)
        ensures
            r == chain_valid(self.chain@),
    {
        self.first_fault().is_none()
    }
}

/// The block that a reference in `r` points at.
pub open spec fn returned(r: Option<&Block>) -> Option<Block> {
    match r {
        Some(b) => Some(*b),
        None => None,
    }
}

/// What appending `data` stamped `timestamp` to `old` yields: the sealed
/// block with the next index, linked to `old`'s last block, pushed onto the
/// unchanged earlier blocks; or, when no nonce seals it, the ledger unchanged.
pub open spec fn append_result(
    old: Blockchain,
    new: Blockchain,
    r: Option<Block>,
    data: Seq<char>,
    timestamp: i64,
) -> bool {
    let c = old.chain@;
    &&& new.difficulty == old.difficulty
    &&& seal_result(r, c.len() as u64, timestamp, data, c.last().hash@, old.difficulty as nat)
    &&& match r {
        Some(b) => new.chain@ == c.push(b),
        None => new.chain@ == c,
    }
}

/// What creating a ledger at `difficulty` with its genesis block stamped
/// `timestamp` yields: a well-formed ledger of that one sealed block, or
/// nothing when no nonce seals it.
pub open spec fn genesis_result(r: Option<Blockchain>, difficulty: usize, timestamp: i64) -> bool {
    match r {
        Some(bc) => bc.wf() && bc.difficulty == difficulty && bc.chain@.len() == 1 && seal_result(
            Some(bc.chain@[0]),
            0,
            timestamp,
            genesis_payload(),
            sentinel(),
            difficulty as nat,
        ),
        None => seal_result(None, 0, timestamp, genesis_payload(), sentinel(), difficulty as nat),
    }
}

} // verus!
