//! Machine hash: the stable machine identifier is hashed with SHA-256 and
//! sent as lowercase hex in the `X-Machine-Hash` header.

use sha2::Digest;
use vstd::prelude::*;

verus! {

/// The SHA-256 digest of a byte sequence.
pub uninterp spec fn sha256_of(data: Seq<u8>) -> Seq<u8>;

/// Relies on sha2::Sha256 through the Digest trait: one-shot hashing of
/// the input, a function of the bytes alone, yielding the 32-byte digest.
#[verifier::external_body]
fn sha256(data: &Vec<u8>) -> (r: Vec<u8>)
    ensures
        r@ == sha256_of(data@),
        r@.len() == 32,
{
    sha2::Sha256::digest(data.as_slice()).to_vec()
}

/// The lowercase hex digit for `d` (`d < 16`).
pub open spec fn spec_hex_char(d: int) -> u8 {
    if d < 10 {
        (48 + d) as u8
    } else {
        (87 + d) as u8
    }
}

/// Two lowercase hex digits for every byte, in order.
pub open spec fn spec_hex_lower(bytes: Seq<u8>) -> Seq<u8>
    decreases bytes.len(),
{
    if bytes.len() == 0 {
        Seq::empty()
    } else {
        seq![
            spec_hex_char(bytes[0] as int / 16),
            spec_hex_char(bytes[0] as int % 16),
        ] + spec_hex_lower(bytes.drop_first())
    }
}

/// Formats bytes as lowercase hex.
pub fn to_hex_lower(bytes: &Vec<u8>) -> (r: Vec<u8>)
    ensures
        r@ == spec_hex_lower(bytes@),
        r@.len() == 2 * bytes@.len(),
{
    let mut r: Vec<u8> = Vec::new();
    let mut i: usize = 0;
    proof {
        assert(bytes@.skip(0) =~= bytes@);
        assert(r@ + spec_hex_lower(bytes@) =~= spec_hex_lower(bytes@));
        lemma_hex_lower_len(bytes@);
    }
    while i < bytes.len()
        invariant
            i <= bytes@.len(),
            r@.len() == 2 * i,
            r@ + spec_hex_lower(bytes@.skip(i as int)) == spec_hex_lower(bytes@),
        decreases bytes@.len() - i,
    {
        let ghost pre = bytes@.skip(i as int);
        let ghost r0 = r@;
        proof {
            assert(pre[0] == bytes@[i as int]);
            assert(pre.drop_first() =~= bytes@.skip(i + 1));
        }
        let b = bytes[i];
        let hi = b / 16;
        let lo = b % 16;
        r.push(if hi < 10 { 48 + hi } else { 87 + hi });
        r.push(if lo < 10 { 48 + lo } else { 87 + lo });
        proof {
            assert(r@ =~= r0 + seq![
                spec_hex_char(b as int / 16),
                spec_hex_char(b as int % 16),
            ]);
            assert(r0 + spec_hex_lower(pre) =~= r@ + spec_hex_lower(bytes@.skip(i + 1)));
        }
        i = i + 1;
    }
    proof {
        assert(bytes@.skip(bytes@.len() as int) =~= Seq::<u8>::empty());
        assert(r@ + Seq::<u8>::empty() =~= r@);
        lemma_hex_lower_len(bytes@);
    }
    r
}

proof fn lemma_hex_lower_len(bytes: Seq<u8>)
    ensures
        spec_hex_lower(bytes).len() == 2 * bytes.len(),
    decreases bytes.len(),
{
    if bytes.len() > 0 {
        lemma_hex_lower_len(bytes.drop_first());
    }
}

/// Hashes a machine identifier for privacy: the lowercase hex of its
/// SHA-256 digest, 64 characters.
pub fn machine_hash(id: &Vec<u8>) -> (r: Vec<u8>)
    ensures
        r@ == spec_hex_lower(sha256_of(id@)),
        r@.len() == 64,
{
    let digest = sha256(id);
    to_hex_lower(&digest)
}

} // verus!
