use crate::address::Address;
use vstd::prelude::*;

verus! {

/// An account that an instruction refers to, with the access the instruction asks for.
#[derive(Debug, Clone, Copy, PartialEq, Eq)]
pub struct AccountRef {
    pub address: Address,
    pub is_signer: bool,
    pub is_writable: bool,
}

impl AccountRef {
    /// A reference to an account that the instruction may modify.
    pub fn writable(address: Address, is_signer: bool) -> (r: AccountRef)
        ensures
            r == (AccountRef { address, is_signer, is_writable: true }),
    {
        AccountRef { address, is_signer, is_writable: true }
    }

    /// A reference to an account that the instruction only reads.
    pub fn readonly(address: Address, is_signer: bool) -> (r: AccountRef)
        ensures
            r == (AccountRef { address, is_signer, is_writable: false }),
    {
        AccountRef { address, is_signer, is_writable: false }
    }
}


/// A call of a program: the accounts it binds by position and an opaque payload.
#[derive(Debug)]
pub struct Instruction {
    pub program_id: Address,
    pub accounts: Vec<AccountRef>,
    pub data: Vec<u8>,
}

impl Instruction {
    /// Assembles an instruction; the payload is forwarded verbatim, and neither the
    /// payload nor repeated accounts are checked here.
    pub fn new(program_id: Address, accounts: Vec<AccountRef>, data: Vec<u8>) -> (r: Instruction)
        ensures
            r.program_id == program_id,
            r.accounts@ == accounts@,
            r.data@ == data@,
    {
        Instruction { program_id, accounts, data }
    }
}

/// The addresses of the accounts marked as signers, in order.
pub open spec fn signers_in(accounts: Seq<AccountRef>) -> Seq<Address>
    decreases accounts.len(),
{
    if accounts.len() == 0 {
        Seq::empty()
    } else if accounts.last().is_signer {
        signers_in(accounts.drop_last()).push(accounts.last().address)
    } else {
        signers_in(accounts.drop_last())
    }
}

/// The signer addresses of a batch of instructions, in order, repeats included.
pub open spec fn batch_signers(ixs: Seq<Instruction>) -> Seq<Address>
    decreases ixs.len(),
{
    if ixs.len() == 0 {
        Seq::empty()
    } else {
        batch_signers(ixs.drop_last()) + signers_in(ixs.last().accounts@)
    }
}

/// `s` with every repeat of an earlier element removed.
pub open spec fn first_occurrences(s: Seq<Address>) -> Seq<Address>
    decreases s.len(),
{
    if s.len() == 0 {
        Seq::empty()
    } else if first_occurrences(s.drop_last()).contains(s.last()) {
        first_occurrences(s.drop_last())
    } else {
        first_occurrences(s.drop_last()).push(s.last())
    }
}

/// Who signs a transaction: the fee payer first, then each address that an
/// instruction marks as signer, once each, in order of first mention.
pub open spec fn required_signers_of(fee_payer: Address, ixs: Seq<Instruction>) -> Seq<Address> {
    first_occurrences(seq![fee_payer] + batch_signers(ixs))
}

/// Position of the first `a` in `v` at or after `i`, or the length of `v`.
pub open spec fn index_from(v: Seq<Address>, a: Address, i: int) -> int
    decreases v.len() - i,
{
    if i < 0 || i >= v.len() {
        v.len() as int
    } else if v[i] == a {
        i
    } else {
        index_from(v, a, i + 1)
    }
}

/// Position of the first `a` in `v`, or its length when `v` lacks `a`.
pub fn index_of(v: &Vec<Address>, a: &Address) -> (r: usize)
    ensures
        r as int == index_from(v@, *a, 0),
        r <= v@.len(),
        r < v@.len() ==> v@[r as int] == *a,
        r == v@.len() ==> !v@.contains(*a),
{
    let mut k: usize = 0;
    while k < v.len()
        invariant
            k <= v@.len(),
            forall|j: int| 0 <= j < k ==> v@[j] != *a,
            index_from(v@, *a, k as int) == index_from(v@, *a, 0),
        decreases v@.len() - k,
    {
        if v[k].eq(a) {
            assert(v@[k as int].bytes =~= a.bytes);
            return k;
        }
        k = k + 1;
    }
    k
}

/// Whether `v` holds `a`.
pub fn contains_address(v: &Vec<Address>, a: &Address) -> (r: bool)
    ensures
        r == v@.contains(*a),
{
    index_of(v, a) < v.len()
}

/// Appends `a` unless `v` already holds it.
fn push_new(v: &mut Vec<Address>, a: Address)
    ensures
        final(v)@ == (if old(v)@.contains(a) {
            old(v)@
        } else {
            old(v)@.push(a)
        }),
{
    if !contains_address(v, &a) {
        v.push(a);
    }
}

/// The addresses that must sign a transaction made of `ixs` and paid by `fee_payer`.
pub fn required_signers(fee_payer: Address, ixs: &Vec<Instruction>) -> (r: Vec<Address>)
    ensures
        r@ == required_signers_of(fee_payer, ixs@),
{
    let mut r: Vec<Address> = Vec::new();
    r.push(fee_payer);
    proof {
        let c = seq![fee_payer];
        assert(c.drop_last() =~= Seq::<Address>::empty());
        assert(batch_signers(ixs@.subrange(0, 0)) == Seq::<Address>::empty());
        assert(c + batch_signers(ixs@.subrange(0, 0)) =~= c);
        assert(first_occurrences(c.drop_last()) == Seq::<Address>::empty());
        assert(first_occurrences(c) =~= c);
        assert(r@ =~= c);
    }
    let mut i: usize = 0;
    while i < ixs.len()
        invariant
            i <= ixs@.len(),
            r@ == first_occurrences(seq![fee_payer] + batch_signers(ixs@.subrange(0, i as int))),
        decreases ixs@.len() - i,
    {
        let accounts = &ixs[i].accounts;
        let ghost before = seq![fee_payer] + batch_signers(ixs@.subrange(0, i as int));
        let mut j: usize = 0;
        assert(accounts@.subrange(0, 0) =~= Seq::<AccountRef>::empty());
        assert(before + signers_in(accounts@.subrange(0, 0)) =~= before);
        while j < accounts.len()
            invariant
                j <= accounts@.len(),
                r@ == first_occurrences(before + signers_in(accounts@.subrange(0, j as int))),
            decreases accounts@.len() - j,
        {
            let acc = accounts[j];
            let ghost prev = before + signers_in(accounts@.subrange(0, j as int));
            assert(accounts@.subrange(0, j + 1).drop_last() =~= accounts@.subrange(0, j as int));
            if acc.is_signer {
                assert((prev.push(acc.address)).drop_last() =~= prev);
                assert(before + signers_in(accounts@.subrange(0, j + 1)) =~= prev.push(acc.address));
                push_new(&mut r, acc.address);
            }
            j = j + 1;
        }
        assert(accounts@.subrange(0, accounts@.len() as int) =~= accounts@);
        assert(ixs@.subrange(0, i + 1).drop_last() =~= ixs@.subrange(0, i as int));
        assert(seq![fee_payer] + batch_signers(ixs@.subrange(0, i + 1)) =~= before + signers_in(accounts@));
        i = i + 1;
    }
    assert(ixs@.subrange(0, ixs@.len() as int) =~= ixs@);
    r
}

} // verus!
