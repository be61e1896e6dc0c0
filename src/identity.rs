use crate::address::Address;
use rand::rngs::StdRng;
use rand::SeedableRng;
use sha2::{Digest, Sha256};
use solana_sdk::signature::Keypair;
use vstd::prelude::*;

verus! {

/// The SHA-256 digest of a byte string.
pub uninterp spec fn sha256_of(data: Seq<u8>) -> Seq<u8>;

/// Relies on sha2's `Sha256::digest`: the 32-byte SHA-256 digest of `data`.
#[verifier::external_body]
fn sha256_digest(data: &[u8]) -> (r: [u8; 32])
    ensures
        r@ == sha256_of(data@),
{
    Sha256::digest(data).into()
}

/// The bytes (secret key, then public key) of the keypair generated from a seed.
pub uninterp spec fn keypair_of_seed(seed: Seq<u8>) -> Seq<u8>;

/// Relies on solana_sdk's `Keypair::generate`, fed by rand's `StdRng::from_seed`, and
/// on `Keypair::to_bytes`: the 32 secret-key bytes then the 32 public-key bytes of the
/// keypair that the seeded generator draws. The generator is deterministic, so the
/// result depends on the seed alone.
#[verifier::external_body]
fn keypair_bytes_from_seed(seed: [u8; 32]) -> (r: [u8; 64])
    ensures
        r@ == keypair_of_seed(seed@),
{
    Keypair::generate(&mut StdRng::from_seed(seed)).to_bytes()
}

/// A keypair as 64 bytes: the 32 bytes of its secret key, then the 32 of its public key.
#[derive(Debug, Clone, Copy)]
pub struct KeypairBytes {
    pub bytes: [u8; 64],
}

/// The keypair derived from a byte string: its digest seeds the key generator.
pub open spec fn derived_keypair(data: Seq<u8>) -> Seq<u8> {
    keypair_of_seed(sha256_of(data))
}

/// The address derived from a byte string: the public half of its derived keypair.
pub open spec fn derived_address(data: Seq<u8>) -> Seq<u8> {
    derived_keypair(data).subrange(32, 64)
}

impl KeypairBytes {
    /// The public key of the pair, as an address.
    pub fn address(&self) -> (r: Address)
        ensures
            r.bytes@ == self.bytes@.subrange(32, 64),
    {
        let mut bytes = [0u8; 32];
        let mut i: usize = 0;
        while i < 32
            invariant
                i <= 32,
                self.bytes@.len() == 64,
                bytes@.len() == 32,
                forall|j: int| 0 <= j < i ==> bytes@[j] == self.bytes@[j + 32],
            decreases 32 - i,
        {
            bytes[i] = self.bytes[i + 32];
            i = i + 1;
        }
        assert(bytes@ =~= self.bytes@.subrange(32, 64));
        Address::new(bytes)
    }
}

/// Derives a keypair deterministically from a byte string: the same bytes always give
/// the same keypair, in every process.
pub fn keypair_from_data(data: &[u8]) -> (r: KeypairBytes)
    ensures
        r.bytes@ == derived_keypair(data@),
{
    let digest = sha256_digest(data);
    KeypairBytes { bytes: keypair_bytes_from_seed(digest) }
}

/// The address derived from a byte string, such as an uploaded program.
pub fn address_from_data(data: &[u8]) -> (r: Address)
    ensures
        r.bytes@ == derived_address(data@),
{
    keypair_from_data(data).address()
}

/// Deriving twice from equal byte strings gives equal addresses.
pub proof fn lemma_derivation_deterministic(b1: Seq<u8>, b2: Seq<u8>, a1: Address, a2: Address)
    requires
        b1 == b2,
        a1.bytes@ == derived_address(b1),
        a2.bytes@ == derived_address(b2),
    ensures
        a1 == a2,
{
    assert(a1.bytes =~= a2.bytes);
}

} // verus!
