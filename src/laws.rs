//! What holds of the ledger across calls: tampering is detected, and the
//! verdict of validation depends on the blocks alone.
use crate::block::{block_content, block_digest, hash_consistent, Block};
use crate::decimal::{
    decimal_of, lemma_decimal_injective, lemma_signed_decimal_injective, signed_decimal_of,
};
use crate::hashing::{lemma_hex_injective, sha256_of};
use crate::ledger::{chain_valid, linked, prefix_valid};
use vstd::prelude::*;
use vstd::utf8::{encode_utf8, encode_utf8_decode_utf8};

verus! {

/// `a` and `b` differ in exactly one field.
pub open spec fn differ_in_one_field(a: Block, b: Block) -> bool {
    let i = a.index == b.index;
    let t = a.timestamp == b.timestamp;
    let d = a.data@ == b.data@;
    let p = a.previous_hash@ == b.previous_hash@;
    let h = a.hash@ == b.hash@;
    let n = a.nonce == b.nonce;
    ||| !i && t && d && p && h && n
    ||| i && !t && d && p && h && n
    ||| i && t && !d && p && h && n
    ||| i && t && d && !p && h && n
    ||| i && t && d && p && !h && n
    ||| i && t && d && p && h && !n
}

/// Equal concatenations with equal outer parts have equal middles.
proof fn lemma_cancel_outer(p: Seq<u8>, x: Seq<u8>, y: Seq<u8>, s: Seq<u8>)
    requires
        p + x + s == p + y + s,
    ensures
        x == y,
{
    let whole = p + x + s;
    assert(whole.len() == p.len() + x.len() + s.len());
    assert((p + y + s).len() == p.len() + y.len() + s.len());
    assert(x.len() == y.len());
    assert(x =~= whole.subrange(p.len() as int, (p.len() + x.len()) as int));
    assert(y =~= (p + y + s).subrange(p.len() as int, (p.len() + y.len()) as int));
}

/// Changing exactly one field other than the stored hash changes the digest
/// input: each field's rendering determines the field.
pub proof fn lemma_one_field_changes_content(a: Block, b: Block)
    requires
        differ_in_one_field(a, b),
        a.hash@ == b.hash@,
    ensures
        block_content(a) != block_content(b),
{
    let (ia, ib) = (decimal_of(a.index as nat), decimal_of(b.index as nat));
    let (ta, tb) = (
        signed_decimal_of(a.timestamp as int),
        signed_decimal_of(b.timestamp as int),
    );
    let (da, db) = (encode_utf8(a.data@), encode_utf8(b.data@));
    let (pa, pb) = (encode_utf8(a.previous_hash@), encode_utf8(b.previous_hash@));
    let (na, nb) = (decimal_of(a.nonce as nat), decimal_of(b.nonce as nat));
    let e = Seq::<u8>::empty();
    if block_content(a) == block_content(b) {
        if a.index != b.index {
            assert(block_content(a) =~= e + ia + (ta + da + pa + na));
            assert(block_content(b) =~= e + ib + (ta + da + pa + na));
            lemma_cancel_outer(e, ia, ib, ta + da + pa + na);
            lemma_decimal_injective(a.index as nat, b.index as nat);
        } else if a.timestamp != b.timestamp {
            assert(block_content(a) =~= ia + ta + (da + pa + na));
            assert(block_content(b) =~= ia + tb + (da + pa + na));
            lemma_cancel_outer(ia, ta, tb, da + pa + na);
            lemma_signed_decimal_injective(a.timestamp as int, b.timestamp as int);
        } else if a.data@ != b.data@ {
            assert(block_content(a) =~= (ia + ta) + da + (pa + na));
            assert(block_content(b) =~= (ia + ta) + db + (pa + na));
            lemma_cancel_outer(ia + ta, da, db, pa + na);
            encode_utf8_decode_utf8(a.data@);
            encode_utf8_decode_utf8(b.data@);
        } else if a.previous_hash@ != b.previous_hash@ {
            assert(block_content(a) =~= (ia + ta + da) + pa + na);
            assert(block_content(b) =~= (ia + ta + da) + pb + na);
            lemma_cancel_outer(ia + ta + da, pa, pb, na);
            encode_utf8_decode_utf8(a.previous_hash@);
            encode_utf8_decode_utf8(b.previous_hash@);
        } else {
            assert(block_content(a) =~= (ia + ta + da + pa) + na + e);
            assert(block_content(b) =~= (ia + ta + da + pa) + nb + e);
            lemma_cancel_outer(ia + ta + da + pa, na, nb, e);
            lemma_decimal_injective(a.nonce as nat, b.nonce as nat);
        }
    }
}

/// Tampering is detected. In a valid chain, replace block `k` by a block that
/// differs from it in exactly one field: the chain no longer validates, and
/// the first failure is the hash check at `k`. Changing the stored hash is
/// always caught; changing another field changes the digest input, and is
/// caught unless SHA-256 maps the two inputs to the same digest.
pub proof fn lemma_tamper_detected(c: Seq<Block>, k: int, b: Block)
    requires
        chain_valid(c),
        0 <= k < c.len(),
        differ_in_one_field(c[k], b),
        c[k].hash@ != b.hash@ || sha256_of(block_content(c[k])) != sha256_of(block_content(b)),
    ensures
        !chain_valid(c.update(k, b)),
        prefix_valid(c.update(k, b), k),
        !hash_consistent(c.update(k, b)[k]),
{
    let t = c.update(k, b);
    assert(hash_consistent(c[k]));
    if c[k].hash@ != b.hash@ {
        assert(block_content(c[k]) =~= block_content(b));
    } else {
        if block_digest(c[k]) == block_digest(b) {
            lemma_hex_injective(sha256_of(block_content(c[k])), sha256_of(block_content(b)));
        }
    }
    assert forall|i: int| 0 <= i < k implies #[trigger] hash_consistent(t[i]) && (i > 0 ==> linked(
        t,
        i,
    )) by {
        assert(hash_consistent(c[i]));
        assert(t[i] == c[i]);
        if i > 0 {
            assert(t[i - 1] == c[i - 1]);
        }
    }
    assert(!hash_consistent(t[k]));
}

/// Validation depends on the blocks alone: two ledgers with the same blocks,
/// such as one ledger validated twice with no append between, get the same verdict.
pub proof fn lemma_validation_repeatable(c1: Seq<Block>, c2: Seq<Block>)
    requires
        c1 == c2,
    ensures
        chain_valid(c1) == chain_valid(c2),
{
}

} // verus!
