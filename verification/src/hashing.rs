//! The transaction identifier: a double SHA-256 digest of the original,
//! unmodified byte buffer, with the resulting 32 bytes reversed for display.

use sha2::Digest;
use vstd::prelude::*;

verus! {

/// The SHA-256 digest of a byte sequence. The digest is a function of the
/// input bytes alone; what it is on given bytes is left to the outside
/// implementation.
pub uninterp spec fn sha256_of(s: Seq<u8>) -> Seq<u8>;

/// The transaction identifier of a byte buffer: the second SHA-256 digest
/// of the first, with its 32 bytes reversed.
pub open spec fn txid_of(s: Seq<u8>) -> Seq<u8> {
    sha256_of(sha256_of(s)).reverse()
}

/// Relies on sha2::Sha256 (via the Digest trait): the digest depends on the
/// input bytes alone and is exactly 32 bytes long.
#[verifier::external_body]
fn sha256(bytes: &Vec<u8>) -> (r: Vec<u8>)
    ensures
        r@ == sha256_of(bytes@),
        r@.len() == 32,
{
    sha2::Sha256::digest(bytes.as_slice()).to_vec()
}

/// Returns the bytes of a vector in reverse order.
fn reversed(v: &Vec<u8>) -> (r: Vec<u8>)
    ensures
        r@ == v@.reverse(),
{
    let n = v.len();
    let mut r: Vec<u8> = Vec::new();
    let mut i: usize = 0;
    while i < n
        invariant
            n == v@.len(),
            i <= n,
            r@.len() == i,
            forall|j: int| 0 <= j < i ==> r@[j] == v@[n - 1 - j],
        decreases n - i,
    {
        r.push(v[n - 1 - i]);
        i = i + 1;
    }
    proof {
        assert(r@ =~= v@.reverse());
    }
    r
}

/// Computes the transaction identifier of the whole original buffer:
/// SHA-256 applied twice, then the 32 digest bytes reversed. The result
/// depends only on the raw bytes, never on any parsed field.
pub fn hash_raw_transaction(bytes: &Vec<u8>) -> (r: Vec<u8>)
    ensures
        r@ == txid_of(bytes@),
        r@.len() == 32,
{
    let first = sha256(bytes);
    let second = sha256(&first);
    reversed(&second)
}

} // verus!
