use crate::address::Address;
use crate::identity::{address_from_data, derived_address};
use solana_sdk::rent::Rent;
use vstd::prelude::*;

verus! {

/// Bytes that every account is charged for on top of its data.
pub const ACCOUNT_STORAGE_OVERHEAD: u64 = 128;

/// Default rent, in lamports per byte-year.
pub const LAMPORTS_PER_BYTE_YEAR: u64 = 3480;

/// Default number of years of rent that makes an account exempt.
pub const EXEMPTION_YEARS: u64 = 2;

/// The smallest balance that keeps an account of `data_len` bytes exempt from rent.
pub open spec fn rent_exempt_minimum(data_len: int) -> int {
    (ACCOUNT_STORAGE_OVERHEAD + data_len) * LAMPORTS_PER_BYTE_YEAR * EXEMPTION_YEARS
}

/// Relies on solana_program's `Rent::minimum_balance` under `Rent::default()`: it
/// multiplies the account size plus the 128-byte overhead by 3480 lamports per
/// byte-year, then by the exemption threshold 2.0. Below `u32::MAX` bytes the product
/// neither overflows nor loses precision in `f64`.
#[verifier::external_body]
fn rent_exempt_balance(data_len: usize) -> (r: u64)
    requires
        data_len <= u32::MAX,
    ensures
        r as int == rent_exempt_minimum(data_len as int),
{
    Rent::default().minimum_balance(data_len)
}

/// Address of the loader that owns and runs uploaded programs
/// (`BPFLoader2111111111111111111111111111111111`).
pub const LOADER_ID: [u8; 32] = [
    2, 168, 246, 145, 78, 136, 161, 110, 57, 90, 225, 40, 148, 143, 250, 105, 86, 147, 55, 104, 24,
    221, 71, 67, 82, 33, 243, 198, 0, 0, 0, 0,
];

/// An executable program to load: its address, bytecode, starting balance, and the
/// loader that owns it.
#[derive(Debug)]
pub struct ProgramEntry {
    pub address: Address,
    pub bytecode: Vec<u8>,
    pub lamports: u64,
    pub owner: Address,
    pub executable: bool,
}

/// An account given by value.
#[derive(Debug)]
pub struct AccountEntry {
    pub address: Address,
    pub lamports: u64,
    pub owner: Address,
    pub executable: bool,
    pub data: Vec<u8>,
    pub rent_epoch: u64,
}

/// The contents of an environment while it is being put together.
pub struct EnvironmentBuilder {
    pub programs: Vec<ProgramEntry>,
    pub accounts: Vec<AccountEntry>,
}

/// The contents of a started environment; nothing can be added to it.
pub struct Environment {
    pub programs: Vec<ProgramEntry>,
    pub accounts: Vec<AccountEntry>,
}

/// The address a program is loaded at: the one given, else the one derived from its bytes.
pub open spec fn program_address_of(bytecode: Seq<u8>, key: Option<Address>) -> Seq<u8> {
    match key {
        Some(a) => a.bytes@,
        None => derived_address(bytecode),
    }
}

/// Chooses the address of a program: `key` if given, else the address derived from the bytecode.
pub fn program_address(bytecode: &[u8], key: Option<Address>) -> (r: Address)
    ensures
        r.bytes@ == program_address_of(bytecode@, key),
{
    match key {
        Some(a) => a,
        None => address_from_data(bytecode),
    }
}

impl EnvironmentBuilder {
    pub fn new() -> (r: EnvironmentBuilder)
        ensures
            r.programs@.len() == 0,
            r.accounts@.len() == 0,
    {
        EnvironmentBuilder { programs: Vec::new(), accounts: Vec::new() }
    }

    /// Adds a program at `key` or at the address derived from its bytecode, and returns
    /// that address. The program account is executable, owned by the loader, and holds
    /// the rent-exempt balance for its size. The bytecode is bounded by `u32::MAX` bytes,
    /// the range in which the outside rent computation is exact and cannot overflow.
    pub fn add_program(&mut self, bytecode: Vec<u8>, key: Option<Address>) -> (r: Address)
        requires
            bytecode@.len() <= u32::MAX,
        ensures
            r.bytes@ == program_address_of(bytecode@, key),
            final(self).accounts@ == old(self).accounts@,
            final(self).programs@.len() == old(self).programs@.len() + 1,
            final(self).programs@.subrange(0, old(self).programs@.len() as int) == old(self).programs@,
            final(self).programs@.last().address == r,
            final(self).programs@.last().bytecode@ == bytecode@,
            final(self).programs@.last().lamports as int == rent_exempt_minimum(bytecode@.len() as int),
            final(self).programs@.last().owner.bytes == LOADER_ID,
            final(self).programs@.last().executable,
    {
        let address = program_address(bytecode.as_slice(), key);
        let lamports = rent_exempt_balance(bytecode.len());
        let owner = Address::new(LOADER_ID);
        self.programs.push(ProgramEntry { address, bytecode, lamports, owner, executable: true });
        assert(self.programs@.subrange(0, old(self).programs@.len() as int) =~= old(self).programs@);
        address
    }

    /// Adds an account given by value.
    pub fn add_account(&mut self, account: AccountEntry)
        ensures
            final(self).programs@ == old(self).programs@,
            final(self).accounts@ == old(self).accounts@.push(account),
    {
        self.accounts.push(account);
    }

    /// Ends the accumulation: the builder is consumed and its contents move to the environment.
    pub fn build(self) -> (r: Environment)
        ensures
            r.programs@ == self.programs@,
            r.accounts@ == self.accounts@,
    {
        Environment { programs: self.programs, accounts: self.accounts }
    }
}

} // verus!
