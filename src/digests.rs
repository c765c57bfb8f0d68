//! Cryptographic digests, computed by outside crates and named here so that
//! contracts can speak of them, and the archive integrity check built on them.
use vstd::prelude::*;

verus! {

/// The lowercase hexadecimal MD5 digest of the UTF-8 encoding of `s`.
pub uninterp spec fn md5_hex_of(s: Seq<char>) -> Seq<char>;

/// The SHA-256 digest of `b`.
pub uninterp spec fn sha256_of(b: Seq<u8>) -> Seq<u8>;

/// Relies on md5::compute and the `LowerHex` impl of its `Digest`: the 16-byte
/// digest of the text's bytes, printed as two lowercase hex digits per byte.
#[verifier::external_body]
pub(crate) fn md5_hex(s: &str) -> (r: String)
    ensures
        r@ == md5_hex_of(s@),
        r@.len() == 32,
{
    format!("{:x}", md5::compute(s.as_bytes()))
}

/// Relies on sha2::Sha256::digest: the 32-byte SHA-256 digest of the bytes.
#[verifier::external_body]
pub(crate) fn sha256(b: &[u8]) -> (r: [u8; 32])
    ensures
        r@ == sha256_of(b@),
{
    <sha2::Sha256 as sha2::Digest>::digest(b).into()
}

/// Whether a computed digest equals the expected one, byte for byte.
pub fn digest_matches(computed: &[u8; 32], expected: &[u8; 32]) -> (r: bool)
    ensures
        r == (computed@ == expected@),
{
    let mut i: usize = 0;
    while i < 32
        invariant
            i <= 32,
            computed@.len() == 32,
            expected@.len() == 32,
            forall|k: int| 0 <= k < i ==> computed@[k] == expected@[k],
        decreases 32 - i,
    {
        if computed[i] != expected[i] {
            return false;
        }
        i = i + 1;
    }
    assert(computed@ =~= expected@);
    true
}

} // verus!
