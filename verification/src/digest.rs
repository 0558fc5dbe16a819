//! Cryptographic digests and their hex rendering.

use vstd::prelude::*;

use sha2::Digest;

verus! {

/// The SHA-256 digest of a byte sequence. The algorithm itself is not
/// modelled; the digest is a fixed function of the input bytes alone.
pub uninterp spec fn sha256_of(bytes: Seq<u8>) -> Seq<u8>;

/// Relies on sha2::Sha256 (Digest::digest): a 32-byte digest that depends
/// on the input bytes alone.
#[verifier::external_body]
pub(crate) fn sha256_bytes(data: &[u8]) -> (r: Vec<u8>)
    ensures
        r@ == sha256_of(data@),
        r@.len() == 32,
{
    sha2::Sha256::digest(data).to_vec()
}

/// The sixteen lowercase hex digits, least value first.
pub open spec fn hex_chars() -> Seq<char> {
    seq!['0', '1', '2', '3', '4', '5', '6', '7', '8', '9', 'a', 'b', 'c', 'd', 'e', 'f']
}

/// Lowercase hex encoding: two digits per byte, most significant first.
pub open spec fn hex_of(bytes: Seq<u8>) -> Seq<char>
    decreases bytes.len(),
{
    if bytes.len() == 0 {
        seq![]
    } else {
        seq![
            hex_chars()[(bytes.first() >> 4) as int],
            hex_chars()[(bytes.first() & 0x0f) as int],
        ] + hex_of(bytes.drop_first())
    }
}

/// Relies on hex::encode: lowercase hex, two digits per byte, most
/// significant nibble first.
#[verifier::external_body]
pub(crate) fn hex_encode(bytes: &[u8]) -> (r: String)
    ensures
        r@ == hex_of(bytes@),
{
    hex::encode(bytes)
}

/// The hex rendering of the SHA-256 digest of `data`.
pub fn sha256_digest(data: &[u8]) -> (r: String)
    ensures
        r@ == hex_of(sha256_of(data@)),
        r@.len() == 64,
{
    let digest = sha256_bytes(data);
    let rendered = hex_encode(digest.as_slice());
    proof {
        lemma_hex_of_len(digest@);
    }
    rendered
}

/// Hex encoding is injective on byte sequences of equal length.
pub proof fn lemma_hex_of_injective(b1: Seq<u8>, b2: Seq<u8>)
    requires
        b1.len() == b2.len(),
        hex_of(b1) == hex_of(b2),
    ensures
        b1 == b2,
    decreases b1.len(),
{
    if b1.len() > 0 {
        let x = b1.first();
        let y = b2.first();
        lemma_hex_of_len(b1);
        lemma_hex_of_len(b2);
        assert(x >> 4 < 16 && (x & 0x0f) < 16 && y >> 4 < 16 && (y & 0x0f) < 16) by (bit_vector);
        assert(hex_of(b1)[0] == hex_chars()[(x >> 4) as int]);
        assert(hex_of(b1)[1] == hex_chars()[(x & 0x0f) as int]);
        assert(hex_of(b2)[0] == hex_chars()[(y >> 4) as int]);
        assert(hex_of(b2)[1] == hex_chars()[(y & 0x0f) as int]);
        assert forall|a: int, b: int|
            0 <= a < 16 && 0 <= b < 16 && a != b implies hex_chars()[a] != hex_chars()[b] by {
        }
        assert(x >> 4 == y >> 4 && x & 0x0f == y & 0x0f);
        assert(x == y) by (bit_vector)
            requires
                x >> 4 == y >> 4 && x & 0x0f == y & 0x0f,
        ;
        assert(hex_of(b1.drop_first()) =~= hex_of(b1).skip(2));
        assert(hex_of(b2.drop_first()) =~= hex_of(b2).skip(2));
        lemma_hex_of_injective(b1.drop_first(), b2.drop_first());
        assert forall|i: int| 0 <= i < b1.len() implies b1[i] == b2[i] by {
            if i > 0 {
                assert(b1[i] == b1.drop_first()[i - 1]);
                assert(b2[i] == b2.drop_first()[i - 1]);
            }
        }
        assert(b1 =~= b2);
    } else {
        assert(b1 =~= b2);
    }
}

/// Hex encoding yields two characters per input byte.
pub proof fn lemma_hex_of_len(bytes: Seq<u8>)
    ensures
        hex_of(bytes).len() == 2 * bytes.len(),
    decreases bytes.len(),
{
    if bytes.len() > 0 {
        lemma_hex_of_len(bytes.drop_first());
    }
}

} // verus!
