//! The instruction discriminator engine: the 8-byte dispatch selector of an
//! instruction, derived from a SHA-256 digest of the tagged instruction name.

use vstd::prelude::*;
use vstd::string::StringExecFns;
use vstd::string::StrSliceExecFns;

verus! {

/// The SHA-256 digest of a byte sequence, as sha2's `Sha256` computes it.
pub uninterp spec fn sha256_of(bytes: Seq<u8>) -> Seq<u8>;

/// Relies on sha2's `Sha256`: the digest is a pure function of the input
/// bytes and is 32 bytes long.
#[verifier::external_body]
fn sha256(input: &[u8]) -> (r: Vec<u8>)
    ensures
        r@ == sha256_of(input@),
        r@.len() == 32,
{
    <sha2::Sha256 as sha2::Digest>::digest(input).to_vec()
}

/// The bytes hashed to obtain an instruction's discriminator: the UTF-8
/// encoding of the instruction name tagged with the `global:` namespace.
pub open spec fn discriminator_input(name: Seq<char>) -> Seq<u8> {
    vstd::utf8::encode_utf8("global:"@ + name)
}

/// An instruction's 8-byte discriminator: the first 8 bytes of the SHA-256
/// digest of its tagged name, in digest byte order.
pub open spec fn spec_discriminator(name: Seq<char>) -> Seq<u8> {
    sha256_of(discriminator_input(name)).take(8)
}

/// Computes the 8-byte dispatch discriminator of an instruction name.
pub fn compute_discriminator(ix_name: &str) -> (r: [u8; 8])
    ensures
        r@ == spec_discriminator(ix_name@),
{
    let mut tagged: String = "global:".to_owned();
    tagged.append(ix_name);
    let bytes: Vec<u8> = tagged.as_str().as_bytes_vec();
    assert(bytes@ == discriminator_input(ix_name@));
    let digest: Vec<u8> = sha256(bytes.as_slice());
    let r: [u8; 8] = [
        digest[0],
        digest[1],
        digest[2],
        digest[3],
        digest[4],
        digest[5],
        digest[6],
        digest[7],
    ];
    assert(r@ =~= spec_discriminator(ix_name@));
    r
}

/// The discriminator is deterministic: it is a function of the instruction
/// name alone, so equal names always yield the same 8 bytes.
pub proof fn lemma_discriminator_deterministic(a: Seq<char>, b: Seq<char>)
    requires
        a == b,
    ensures
        spec_discriminator(a) == spec_discriminator(b),
{
}

} // verus!
