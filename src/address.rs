use solana_sdk::pubkey::Pubkey;
use std::str::FromStr;
use vstd::prelude::*;

verus! {

/// Fixed-size public identifier of an account or program (an ed25519 public key).
#[derive(Debug, Clone, Copy, Eq, Hash)]
pub struct Address {
    pub bytes: [u8; 32],
}

/// The address that a base58 text denotes, if it denotes one.
pub uninterp spec fn decoded_pubkey(text: Seq<char>) -> Option<[u8; 32]>;

/// Relies on `Pubkey::from_str` (solana_program): decodes base58 text of at most
/// 44 bytes into exactly 32 bytes, and fails otherwise, so an empty text fails.
#[verifier::external_body]
fn decode_pubkey(text: &str) -> (r: Option<[u8; 32]>)
    ensures
        r == decoded_pubkey(text@),
        text@.len() == 0 ==> r is None,
{
    match Pubkey::from_str(text) {
        Ok(key) => Some(key.to_bytes()),
        Err(_) => None,
    }
}

impl PartialEq for Address {
    fn eq(&self, other: &Address) -> (r: bool)
        ensures
            r == (self.bytes@ == other.bytes@),
    {
        let mut i: usize = 0;
        while i < 32
            invariant
                i <= 32,
                self.bytes@.len() == 32,
                other.bytes@.len() == 32,
                forall|j: int| 0 <= j < i ==> self.bytes@[j] == other.bytes@[j],
            decreases 32 - i,
        {
            if self.bytes[i] != other.bytes[i] {
                return false;
            }
            i = i + 1;
        }
        assert(self.bytes@ =~= other.bytes@);
        true
    }
}

impl vstd::std_specs::cmp::PartialEqSpecImpl for Address {
    open spec fn obeys_eq_spec() -> bool {
        true
    }

    open spec fn eq_spec(&self, other: &Address) -> bool {
        self.bytes@ == other.bytes@
    }
}

impl Address {
    pub fn new(bytes: [u8; 32]) -> (r: Address)
        ensures
            r.bytes == bytes,
    {
        Address { bytes }
    }

    /// Decodes the canonical base58 text of an address.
    pub fn parse(text: &str) -> (r: Option<Address>)
        ensures
            r == (match decoded_pubkey(text@) {
                Some(b) => Some(Address { bytes: b }),
                None => None,
            }),
            text@.len() == 0 ==> r is None,
    {
        match decode_pubkey(text) {
            Some(b) => Some(Address { bytes: b }),
            None => None,
        }
    }
}

} // verus!
