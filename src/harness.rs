use crate::address::Address;
use crate::instruction::{index_from, index_of, required_signers, required_signers_of, Instruction};
use vstd::prelude::*;

verus! {

/// For each required signer, the position of its key among the available ones; `None`
/// when a required signer has no key, so that no transaction is signed short of one.
pub fn select_signers(required: &Vec<Address>, available: &Vec<Address>) -> (r: Option<Vec<usize>>)
    ensures
        r is Some <==> forall|k: int| 0 <= k < required@.len() ==> available@.contains(#[trigger] required@[k]),
        r matches Some(idx) ==> idx@.len() == required@.len() && forall|k: int|
            0 <= k < required@.len() ==> idx@[k] as int == index_from(available@, #[trigger] required@[k], 0),
{
    let mut idx: Vec<usize> = Vec::new();
    let mut k: usize = 0;
    while k < required.len()
        invariant
            k <= required@.len(),
            idx@.len() == k,
            forall|j: int| 0 <= j < k ==> available@.contains(#[trigger] required@[j]),
            forall|j: int| 0 <= j < k ==> idx@[j] as int == index_from(available@, #[trigger] required@[j], 0),
        decreases required@.len() - k,
    {
        let p = index_of(available, &required[k]);
        if p == available.len() {
            return None;
        }
        assert(available@.contains(required@[k as int])) by {
            assert(available@[p as int] == required@[k as int]);
        }
        idx.push(p);
        k = k + 1;
    }
    Some(idx)
}

/// A transaction ready to be signed: its instructions, who pays, and who must sign.
#[derive(Debug)]
pub struct TransactionPlan {
    pub instructions: Vec<Instruction>,
    pub fee_payer: Address,
    pub signers: Vec<Address>,
}

impl TransactionPlan {
    /// Binds a batch of instructions to a fee payer and works out the signer set.
    pub fn new(instructions: Vec<Instruction>, fee_payer: Address) -> (r: TransactionPlan)
        ensures
            r.instructions@ == instructions@,
            r.fee_payer == fee_payer,
            r.signers@ == required_signers_of(fee_payer, instructions@),
    {
        let signers = required_signers(fee_payer, &instructions);
        TransactionPlan { instructions, fee_payer, signers }
    }

    /// Which of the available keys sign this transaction, one per required signer.
    pub fn signer_indices(&self, available: &Vec<Address>) -> (r: Option<Vec<usize>>)
        ensures
            r is Some <==> forall|k: int|
                0 <= k < self.signers@.len() ==> available@.contains(#[trigger] self.signers@[k]),
            r matches Some(idx) ==> idx@.len() == self.signers@.len() && forall|k: int|
                0 <= k < self.signers@.len() ==> idx@[k] as int == index_from(available@, #[trigger] self.signers@[k], 0),
    {
        select_signers(&self.signers, available)
    }
}

} // verus!
