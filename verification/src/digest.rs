//! SHA-256 digests, of whole byte strings and of streams.

use vstd::prelude::*;

use sha2::Digest;

use crate::numerals::{hex_digit, hex_padded};

verus! {

/// The SHA-256 digest of a byte string.
pub uninterp spec fn sha256(bytes: Seq<u8>) -> Seq<u8>;

/// A `sha2::Sha256` hasher that is fed piece by piece.
#[verifier::external_body]
pub struct RunningDigest {
    inner: sha2::Sha256,
}

/// The bytes that a hasher has been fed so far.
pub uninterp spec fn absorbed(hasher: RunningDigest) -> Seq<u8>;

/// `sha2::Sha256::new`: a hasher that has been fed nothing.
#[verifier::external_body]
pub(crate) fn start_digest() -> (r: RunningDigest)
    ensures
        absorbed(r) == Seq::<u8>::empty(),
{
    RunningDigest { inner: sha2::Sha256::new() }
}

/// `sha2::Sha256::update`: feed the bytes after what the hasher already holds.
#[verifier::external_body]
pub(crate) fn feed_digest(hasher: &mut RunningDigest, bytes: &[u8])
    ensures
        absorbed(*final(hasher)) == absorbed(*old(hasher)) + bytes@,
{
    hasher.inner.update(bytes);
}

/// `sha2::Sha256::finalize`: the digest of everything that the hasher was fed. It is a function of
/// these bytes alone, goes by the name `sha256` and has 32 bytes.
#[verifier::external_body]
pub(crate) fn finish_digest(hasher: RunningDigest) -> (r: Vec<u8>)
    ensures
        r@ == sha256(absorbed(hasher)),
        r@.len() == 32,
{
    hasher.inner.finalize().to_vec()
}

/// The digest of bytes that are at hand.
pub fn digest(bytes: &[u8]) -> (r: Vec<u8>)
    ensures
        r@ == sha256(bytes@),
        r@.len() == 32,
{
    let mut hasher: RunningDigest = start_digest();
    feed_digest(&mut hasher, bytes);
    assert(absorbed(hasher) =~= bytes@);
    finish_digest(hasher)
}

/// Two lower-case hexadecimal digits for each byte.
pub open spec fn hex_bytes(bytes: Seq<u8>) -> Seq<char>
    decreases bytes.len(),
{
    if bytes.len() == 0 {
        Seq::empty()
    } else {
        hex_bytes(bytes.drop_last()) + hex_padded(bytes.last() as nat, 2)
    }
}

pub fn to_hex_bytes(bytes: &[u8]) -> (r: Vec<char>)
    ensures
        r@ == hex_bytes(bytes@),
{
    let mut out: Vec<char> = Vec::new();
    let mut i: usize = 0;
    while i < bytes.len()
        invariant
            i <= bytes@.len(),
            out@ == hex_bytes(bytes@.take(i as int)),
        decreases bytes@.len() - i,
    {
        let b: u8 = bytes[i];
        let ghost before = out@;
        out.push(hex_digit(b / 16));
        out.push(hex_digit(b % 16));
        proof {
            reveal_with_fuel(hex_padded, 3);
            assert(bytes@.take(i + 1).drop_last() =~= bytes@.take(i as int));
            assert((b / 16) % 16 == b / 16);
            assert(out@ =~= before + hex_padded(b as nat, 2));
        }
        i += 1;
    }
    assert(bytes@.take(bytes@.len() as int) =~= bytes@);
    out
}

} // verus!
