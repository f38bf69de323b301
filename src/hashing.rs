//! The digest used to seal blocks: SHA-256, rendered as lowercase hexadecimal.
use sha2::Digest;
use vstd::prelude::*;

verus! {

/// The SHA-256 digest of a byte string.
pub uninterp spec fn sha256_of(bytes: Seq<u8>) -> Seq<u8>;

/// Relies on `sha2::Sha256::digest`: the 32-byte SHA-256 digest of the input.
#[verifier::external_body]
fn sha256(bytes: &[u8]) -> (r: Vec<u8>)
    ensures
        r@ == sha256_of(bytes@),
        r@.len() == 32,
{
    sha2::Sha256::digest(bytes).to_vec()
}

/// The lowercase hexadecimal digits, in order of value.
pub open spec fn hex_digits() -> Seq<char> {
    seq!['0', '1', '2', '3', '4', '5', '6', '7', '8', '9', 'a', 'b', 'c', 'd', 'e', 'f']
}

/// The `i`-th four-bit group of `b`, most significant half of each byte first.
pub open spec fn nibble(b: Seq<u8>, i: int) -> int {
    if i % 2 == 0 {
        b[i / 2] as int / 16
    } else {
        b[i / 2] as int % 16
    }
}

/// `b` written in lowercase hexadecimal, two digits per byte.
pub open spec fn hex_of(b: Seq<u8>) -> Seq<char> {
    Seq::new(2 * b.len(), |i: int| hex_digits()[nibble(b, i)])
}

/// The code of each hexadecimal digit, which tells the digits apart.
pub proof fn lemma_hex_digit_codes()
    ensures
        forall|n: int|
            0 <= n < 16 ==> #[trigger] hex_digits()[n] as u32 == if n < 10 {
                48 + n
            } else {
                87 + n
            },
{
    let h = hex_digits();
    assert(h[0] == '0' && h[1] == '1' && h[2] == '2' && h[3] == '3' && h[4] == '4');
    assert(h[5] == '5' && h[6] == '6' && h[7] == '7' && h[8] == '8' && h[9] == '9');
    assert(h[10] == 'a' && h[11] == 'b' && h[12] == 'c' && h[13] == 'd' && h[14] == 'e');
    assert(h[15] == 'f');
}

/// Distinct byte strings have distinct hexadecimal renderings.
pub proof fn lemma_hex_injective(x: Seq<u8>, y: Seq<u8>)
    requires
        hex_of(x) == hex_of(y),
    ensures
        x == y,
{
    lemma_hex_digit_codes();
    assert(hex_of(x).len() == 2 * x.len());
    assert(hex_of(y).len() == 2 * y.len());
    assert forall|i: int| 0 <= i < x.len() implies x[i] == y[i] by {
        let hi = 2 * i;
        let lo = 2 * i + 1;
        assert(hex_of(x)[hi] == hex_of(y)[hi]);
        assert(hex_of(x)[lo] == hex_of(y)[lo]);
        assert(hi / 2 == i && hi % 2 == 0 && lo / 2 == i && lo % 2 == 1);
        let (xa, ya, xb, yb) = (
            x[i] as int / 16,
            y[i] as int / 16,
            x[i] as int % 16,
            y[i] as int % 16,
        );
        assert(hex_of(x)[hi] == hex_digits()[xa]);
        assert(hex_of(y)[hi] == hex_digits()[ya]);
        assert(hex_of(x)[lo] == hex_digits()[xb]);
        assert(hex_of(y)[lo] == hex_digits()[yb]);
        assert(hex_digits()[xa] as u32 == hex_digits()[ya] as u32);
        assert(hex_digits()[xb] as u32 == hex_digits()[yb] as u32);
        assert(xa == ya && xb == yb);
        assert(x[i] as int == 16 * xa + xb);
        assert(y[i] as int == 16 * ya + yb);
    }
    assert(x =~= y);
}

/// The text `h` starts with at least `d` zero digits.
pub open spec fn has_leading_zeros(h: Seq<char>, d: nat) -> bool {
    d <= h.len() && forall|i: int| 0 <= i < d ==> h[i] == '0'
}

/// The digest of a byte string as text: SHA-256, in lowercase hexadecimal.
pub open spec fn digest_text(bytes: Seq<u8>) -> Seq<char> {
    hex_of(sha256_of(bytes))
}

/// The digest of `bytes`, as raw bytes.
pub fn digest_bytes(bytes: &Vec<u8>) -> (r: Vec<u8>)
    ensures
        r@ == sha256_of(bytes@),
        r@.len() == 32,
{
    sha256(bytes.as_slice())
}

/// Renders `b` as lowercase hexadecimal.
pub fn to_hex(b: &Vec<u8>) -> (r: String)
    ensures
        r@ == hex_of(b@),
{
    let digits: &str = "0123456789abcdef";
    proof {
        reveal_strlit("0123456789abcdef");
        assert(digits@ =~= hex_digits());
    }
    let mut out = String::new();
    let mut k: usize = 0;
    while k < b.len()
        invariant
            k <= b@.len(),
            digits@ == hex_digits(),
            out@ =~= hex_of(b@.subrange(0, k as int)),
        decreases b@.len() - k,
    {
        let byte = b[k];
        let hi: usize = (byte / 16) as usize;
        let lo: usize = (byte % 16) as usize;
        let old_out = Ghost(out@);
        out.append(digits.substring_ascii(hi, hi + 1));
        out.append(digits.substring_ascii(lo, lo + 1));
        proof {
            let p = b@.subrange(0, k as int);
            let q = b@.subrange(0, k + 1);
            assert forall|i: int| 0 <= i < 2 * q.len() implies nibble(q, i) == if i < 2 * k {
                nibble(p, i)
            } else if i == 2 * k {
                hi as int
            } else {
                lo as int
            } by {
                assert(q[i / 2] == b@[i / 2]);
            }
            assert(out@ =~= hex_of(q));
        }
        k = k + 1;
    }
    proof {
        assert(b@.subrange(0, b@.len() as int) =~= b@);
    }
    out
}

/// Tells whether the hexadecimal rendering of `b` starts with `d` zero digits,
/// without rendering it.
pub fn leading_zero_nibbles(b: &Vec<u8>, d: usize) -> (r: bool)
    ensures
        r == has_leading_zeros(hex_of(b@), d as nat),
{
    if d / 2 + d % 2 > b.len() {
        return false;
    }
    let mut i: usize = 0;
    while i < d
        invariant
            d <= 2 * b@.len(),
            i <= d,
            forall|j: int| 0 <= j < i ==> nibble(b@, j) == 0,
        decreases d - i,
    {
        let byte = b[i / 2];
        let n = if i % 2 == 0 { byte / 16 } else { byte % 16 };
        if n != 0 {
            proof {
                assert(hex_of(b@)[i as int] != '0');
            }
            return false;
        }
        i = i + 1;
    }
    proof {
        assert forall|j: int| 0 <= j < d implies hex_of(b@)[j] == '0' by {
            assert(nibble(b@, j) == 0);
        }
    }
    true
}

} // verus!
