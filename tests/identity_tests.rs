use rand::rngs::StdRng;
use rand::SeedableRng;
use sha2::{Digest, Sha256};
use sol_ctf_framework::environment::{program_address, AccountEntry, EnvironmentBuilder, LOADER_ID};
use solana_sdk::bpf_loader;
use sol_ctf_framework::address::Address;
use sol_ctf_framework::identity::{address_from_data, keypair_from_data};
use solana_sdk::rent::Rent;
use solana_sdk::signature::Keypair;
use solana_sdk::signer::Signer;

fn expected_keypair(data: &[u8]) -> Keypair {
    let seed: [u8; 32] = Sha256::digest(data).into();
    Keypair::generate(&mut StdRng::from_seed(seed))
}

#[test]
fn keypair_matches_seeded_generation() {
    let data = b"program bytes";
    let kp = keypair_from_data(data);
    assert_eq!(kp.bytes, expected_keypair(data).to_bytes());
}

#[test]
fn derived_address_is_the_public_key() {
    let data = b"abc";
    let kp = keypair_from_data(data);
    let restored = Keypair::from_bytes(&kp.bytes).unwrap();
    assert_eq!(kp.address().bytes, restored.pubkey().to_bytes());
    assert_eq!(address_from_data(data).bytes, expected_keypair(data).pubkey().to_bytes());
}

#[test]
fn equal_bytes_give_equal_addresses() {
    let a = vec![1u8, 2, 3, 4];
    let b = a.clone();
    assert_eq!(address_from_data(&a), address_from_data(&b));
    assert_eq!(address_from_data(&[]), address_from_data(&[]));
}

#[test]
fn different_bytes_give_different_addresses() {
    assert_ne!(address_from_data(b"a"), address_from_data(b"b"));
    assert_ne!(address_from_data(&[]), address_from_data(&[0]));
}

#[test]
fn program_address_prefers_given_key() {
    let key = Address::new([7u8; 32]);
    assert_eq!(program_address(b"code", Some(key)), key);
    assert_eq!(program_address(b"code", None), address_from_data(b"code"));
}

#[test]
fn builder_adds_program_with_rent_exempt_balance() {
    let mut builder = EnvironmentBuilder::new();
    let code = vec![0u8; 10];
    let addr = builder.add_program(code.clone(), None);
    assert_eq!(addr, address_from_data(&code));
    assert_eq!(builder.programs.len(), 1);
    assert_eq!(builder.programs[0].address, addr);
    assert_eq!(builder.programs[0].bytecode, code);
    assert_eq!(builder.programs[0].lamports, Rent::default().minimum_balance(10));
    assert_eq!(builder.programs[0].lamports, 960_480);
    assert_eq!(builder.programs[0].owner, Address::new(bpf_loader::id().to_bytes()));
    assert!(builder.programs[0].executable);
}

#[test]
fn builder_hands_contents_to_environment() {
    let mut builder = EnvironmentBuilder::new();
    let key = Address::new([9u8; 32]);
    assert_eq!(builder.add_program(vec![], Some(key)), key);
    let user = Address::new([1u8; 32]);
    builder.add_account(AccountEntry {
        address: user,
        lamports: 50_010,
        owner: Address::new([0u8; 32]),
        executable: false,
        data: vec![],
        rent_epoch: 1,
    });
    let env = builder.build();
    assert_eq!(env.programs.len(), 1);
    assert_eq!(env.programs[0].address, key);
    assert_eq!(env.programs[0].lamports, Rent::default().minimum_balance(0));
    assert_eq!(env.accounts.len(), 1);
    assert_eq!(env.accounts[0].address, user);
    assert_eq!(env.accounts[0].lamports, 50_010);
}

#[test]
fn loader_id_is_the_bpf_loader() {
    assert_eq!(LOADER_ID, bpf_loader::id().to_bytes());
}
