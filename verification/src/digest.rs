//! The identity of a program: the SHA-256 digest of its ELF file.
use crate::text::{hex_bytes, law_hex_is_lower_case, law_hex_round_trip, lower_hex};
use vstd::prelude::*;

verus! {

/// The SHA-256 digest of `data`.
pub uninterp spec fn sha256(data: Seq<u8>) -> Seq<u8>;

/// Hashes with `Sha256` of `sha2`.
///
/// Claimed of it: the digest depends on the data alone and has 32 bytes.
#[verifier::external_body]
pub(crate) fn sha256_digest(data: &[u8]) -> (r: Vec<u8>)
    ensures
        r@ == sha256(data@),
        r@.len() == 32,
{
    let mut hasher = <sha2::Sha256 as sha2::Digest>::new();
    sha2::Digest::update(&mut hasher, data);
    sha2::Digest::finalize(hasher).to_vec()
}

/// Writes bytes in hexadecimal with `hex::encode`.
///
/// Claimed of it: two lower-case digits per byte, the high half first.
#[verifier::external_body]
pub(crate) fn hex_encode(bytes: &Vec<u8>) -> (r: String)
    ensures
        r@ == lower_hex(bytes@),
{
    hex::encode(bytes)
}

/// The identity that an ELF file is kept under.
pub open spec fn elf_identity(elf: Seq<u8>) -> Seq<char> {
    lower_hex(sha256(elf))
}

/// The identity of an ELF file: its SHA-256 digest in lower-case hexadecimal.
pub fn elf_id(elf: &[u8]) -> (r: String)
    ensures
        r@ == elf_identity(elf@),
        r@.len() == 64,
{
    let digest: Vec<u8> = sha256_digest(elf);
    hex_encode(&digest)
}

/// The identity of a program reads as its digest, and is written in lower case.
pub proof fn law_identity_reads_as_digest(elf: Seq<u8>)
    ensures
        hex_bytes(elf_identity(elf)) == Some(sha256(elf)),
        elf_identity(elf).len() == 2 * sha256(elf).len(),
        forall|i: int|
            0 <= i < elf_identity(elf).len() ==> '0' <= #[trigger] elf_identity(elf)[i] <= '9'
                || 'a' <= elf_identity(elf)[i] <= 'f',
{
    law_hex_round_trip(sha256(elf));
    law_hex_is_lower_case(sha256(elf));
}

} // verus!
