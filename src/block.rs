//! One block of the ledger: its fields, the digest over them, and the
//! proof-of-work search that seals it.
use crate::decimal::{decimal_of, push_decimal, push_signed_decimal, signed_decimal_of};
use crate::hashing::{digest_bytes, digest_text, has_leading_zeros, leading_zero_nibbles, to_hex};
use vstd::prelude::*;
use vstd::string::StrSliceExecFns;
use vstd::utf8::encode_utf8;

verus! {

/// The number of hexadecimal digits of a digest.
pub const DIGEST_DIGITS: usize = 64;

/// A unit of payload together with its place in the chain and its seal.
pub struct Block {
    /// Position in the chain; the genesis block is at 0.
    pub index: u64,
    /// Seconds since the Unix epoch at creation.
    pub timestamp: i64,
    /// The caller's payload.
    pub data: String,
    /// The `hash` of the block before this one.
    pub previous_hash: String,
    /// The digest over all the other fields.
    pub hash: String,
    /// The value that the proof-of-work search settled on.
    pub nonce: u64,
}

/// The bytes that precede the nonce in a block's digest input: index,
/// timestamp, payload and previous hash, each as `{}` prints it, with no separator.
pub open spec fn header_bytes(index: u64, timestamp: i64, data: Seq<char>, prev: Seq<char>) -> Seq<u8> {
    decimal_of(index as nat) + signed_decimal_of(timestamp as int) + encode_utf8(data) + encode_utf8(prev)
}

/// The full digest input of a block with the given fields.
pub open spec fn content_of(index: u64, timestamp: i64, data: Seq<char>, prev: Seq<char>, nonce: u64) -> Seq<u8> {
    header_bytes(index, timestamp, data, prev) + decimal_of(nonce as nat)
}

/// The digest input of `b`.
pub open spec fn block_content(b: Block) -> Seq<u8> {
    content_of(b.index, b.timestamp, b.data@, b.previous_hash@, b.nonce)
}

/// The digest of `b`'s fields, as lowercase hexadecimal text.
pub open spec fn block_digest(b: Block) -> Seq<char> {
    digest_text(block_content(b))
}

/// A digest text meets `difficulty`: it starts with that many zero digits.
pub open spec fn meets_difficulty(h: Seq<char>, difficulty: nat) -> bool {
    difficulty <= DIGEST_DIGITS && has_leading_zeros(h, difficulty)
}

/// With these fields, `nonce` gives a digest that meets `difficulty`.
pub open spec fn nonce_works(
    index: u64,
    timestamp: i64,
    data: Seq<char>,
    prev: Seq<char>,
    nonce: u64,
    difficulty: nat,
) -> bool {
    meets_difficulty(digest_text(content_of(index, timestamp, data, prev, nonce)), difficulty)
}

/// `b`'s stored hash is the digest of its other fields.
pub open spec fn hash_consistent(b: Block) -> bool {
    b.hash@ == block_digest(b)
}

/// `b` is sealed at `difficulty`: its hash is its digest, and meets the difficulty.
pub open spec fn is_sealed(b: Block, difficulty: nat) -> bool {
    hash_consistent(b) && meets_difficulty(b.hash@, difficulty)
}

/// No nonce in `[lo, hi)` works for `b`'s fields.
pub open spec fn none_between(b: Block, lo: u64, hi: u64, difficulty: nat) -> bool {
    forall|n: u64|
        lo <= n < hi ==> !#[trigger] nonce_works(
            b.index,
            b.timestamp,
            b.data@,
            b.previous_hash@,
            n,
            difficulty,
        )
}

/// No nonce at or above `start` works for these fields.
pub open spec fn no_nonce_from(
    index: u64,
    timestamp: i64,
    data: Seq<char>,
    prev: Seq<char>,
    start: u64,
    difficulty: nat,
) -> bool {
    forall|n: u64| start <= n ==> !#[trigger] nonce_works(index, timestamp, data, prev, n, difficulty)
}

/// What sealing the given fields yields: the block with the least nonce that
/// works, or nothing when no nonce works.
pub open spec fn seal_result(
    r: Option<Block>,
    index: u64,
    timestamp: i64,
    data: Seq<char>,
    prev: Seq<char>,
    difficulty: nat,
) -> bool {
    match r {
        Some(b) => b.index == index && b.timestamp == timestamp && b.data@ == data
            && b.previous_hash@ == prev && is_sealed(b, difficulty) && none_between(
            b,
            0,
            b.nonce,
            difficulty,
        ),
        None => no_nonce_from(index, timestamp, data, prev, 0, difficulty),
    }
}

impl Block {
    /// The digest input of this block, without the nonce.
    fn header(&self) -> (r: Vec<u8>)
        ensures
            r@ == header_bytes(self.index, self.timestamp, self.data@, self.previous_hash@),
    {
        let mut out: Vec<u8> = Vec::new();
        push_decimal(&mut out, self.index);
        push_signed_decimal(&mut out, self.timestamp);
        let mut data_bytes = self.data.as_str().as_bytes_vec();
        out.append(&mut data_bytes);
        let mut prev_bytes = self.previous_hash.as_str().as_bytes_vec();
        out.append(&mut prev_bytes);
        out
    }

    /// Recomputes the digest of this block's fields, as lowercase hexadecimal.
    pub fn calculate_hash(&self) -> (r: String)
        ensures
            r@ == block_digest(*self),
            r@.len() == DIGEST_DIGITS,
    {
        let mut content = self.header();
        push_decimal(&mut content, self.nonce);
        let d = digest_bytes(&content);
        to_hex(&d)
    }

    /// Searches the nonces upwards from the current one for the first whose
    /// digest meets `difficulty`, and stores it with its digest. Returns whether
    /// one was found; when none was, the nonce is left at or above where it was.
    pub fn mine(&mut self, difficulty: usize) -> (sealed: bool)
        ensures
            final(self).index == old(self).index,
            final(self).timestamp == old(self).timestamp,
            final(self).data == old(self).data,
            final(self).previous_hash == old(self).previous_hash,
            final(self).nonce >= old(self).nonce,
            hash_consistent(*final(self)),
            sealed == !no_nonce_from(
                old(self).index,
                old(self).timestamp,
                old(self).data@,
                old(self).previous_hash@,
                old(self).nonce,
                difficulty as nat,
            ),
            sealed ==> is_sealed(*final(self), difficulty as nat) && none_between(
                *final(self),
                old(self).nonce,
                final(self).nonce,
                difficulty as nat,
            ),
    {
        let mut content = self.header();
        let header_len = content.len();
        let ghost header = content@;
        let start = self.nonce;
        if difficulty > DIGEST_DIGITS {
            push_decimal(&mut content, start);
            let d = digest_bytes(&content);
            self.hash = to_hex(&d);
            return false;
        }
        let mut nonce: u64 = start;
        loop
            invariant
                header == header_bytes(self.index, self.timestamp, self.data@, self.previous_hash@),
                content@ == header,
                header_len == header.len(),
                difficulty <= DIGEST_DIGITS,
                start == old(self).nonce,
                start <= nonce,
                self.index == old(self).index,
                self.timestamp == old(self).timestamp,
                self.data == old(self).data,
                self.previous_hash == old(self).previous_hash,
                forall|n: u64|
                    start <= n < nonce ==> !#[trigger] nonce_works(
                        self.index,
                        self.timestamp,
                        self.data@,
                        self.previous_hash@,
                        n,
                        difficulty as nat,
                    ),
            decreases u64::MAX - nonce,
        {
            push_decimal(&mut content, nonce);
            let d = digest_bytes(&content);
            let found = leading_zero_nibbles(&d, difficulty);
            if found || nonce == u64::MAX {
                self.nonce = nonce;
                self.hash = to_hex(&d);
                proof {
                    if found {
                        assert(nonce_works(
                            self.index,
                            self.timestamp,
                            self.data@,
                            self.previous_hash@,
                            nonce,
                            difficulty as nat,
                        ));
                    } else {
                        assert forall|n: u64|
                            start <= n implies !#[trigger] nonce_works(
                                self.index,
                                self.timestamp,
                                self.data@,
                                self.previous_hash@,
                                n,
                                difficulty as nat,
                            ) by {
                            if n == nonce {
                            }
                        }
                    }
                }
                return found;
            }
            content.truncate(header_len);
            nonce = nonce + 1;
        }
    }

    /// Creates the block with these fields, stamped `timestamp`, and seals it
    /// at `difficulty` from nonce 0; nothing when no nonce meets the difficulty.
    pub fn new(index: u64, data: String, previous_hash: String, timestamp: i64, difficulty: usize) -> (r: Option<Block>)
        ensures
            seal_result(r, index, timestamp, data@, previous_hash@, difficulty as nat),
    {
        let mut block = Block { index, timestamp, data, previous_hash, hash: String::new(), nonce: 0 };
        if block.mine(difficulty) {
            Some(block)
        } else {
            None
        }
    }
}

} // verus!
