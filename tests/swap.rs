use credit_swap::address::Address;
use credit_swap::authority::{check_authority, credit_signing_pda_seed, derive_authority};
use credit_swap::error::CreditError;
use credit_swap::processor::{
    process_instruction, swap_instruction_data, swap_usdc_for_bono, AccountView, Action, Outcome,
    MAX_SQRT_PRICE_X64,
};
use solana_program::pubkey::Pubkey;

fn program_id() -> Address {
    Address { bytes: [42u8; 32] }
}

fn token_account(amount: u64) -> Vec<u8> {
    let mut d = vec![0u8; 165];
    d[64..72].copy_from_slice(&amount.to_le_bytes());
    d[108] = 1;
    d
}

fn swap_accounts(balance: u64) -> Vec<AccountView> {
    let authority = derive_authority(&program_id()).unwrap().address;
    (0..16u8)
        .map(|i| {
            let key = if i == 7 { authority } else { Address { bytes: [100 + i; 32] } };
            let data = if i == 6 { token_account(balance) } else { Vec::new() };
            AccountView { key, data }
        })
        .collect()
}

#[test]
fn authority_matches_runtime_derivation() {
    assert_eq!(&credit_signing_pda_seed(), b"CREDIT_SIGNING_PDA");
    let d = derive_authority(&program_id()).unwrap();
    let (key, bump) =
        Pubkey::find_program_address(&[b"CREDIT_SIGNING_PDA"], &Pubkey::new_from_array([42u8; 32]));
    assert_eq!(d.address.bytes, key.to_bytes());
    assert_eq!(d.bump, bump);
    assert_ne!(d.address.bytes, [42u8; 32]);
    let again = derive_authority(&program_id()).unwrap();
    assert_eq!(again.address.bytes, d.address.bytes);
    assert_eq!(again.bump, d.bump);
}

#[test]
fn other_authority_is_refused() {
    let d = derive_authority(&program_id()).unwrap();
    assert!(check_authority(&program_id(), &d.address).is_ok());
    let mut other = d.address;
    other.bytes[0] ^= 1;
    assert_eq!(check_authority(&program_id(), &other).err(), Some(CreditError::InvalidAccountData));
}

#[test]
fn swap_plan() {
    let accounts = swap_accounts(1_000);
    let bump = derive_authority(&program_id()).unwrap().bump;
    let plan = swap_usdc_for_bono(&program_id(), &accounts, 1_000, 5).unwrap();
    assert_eq!(plan.len(), 3);
    match &plan[0] {
        Action::CreateAssociatedTokenAccount { funder, wallet, mint, token_program } => {
            assert_eq!(funder.bytes, accounts[5].key.bytes);
            assert_eq!(wallet.bytes, accounts[7].key.bytes);
            assert_eq!(mint.bytes, accounts[4].key.bytes);
            assert_eq!(token_program.bytes, accounts[1].key.bytes);
        }
        _ => panic!("expected account creation first"),
    }
    match &plan[1] {
        Action::Approve { source, delegate, owner, amount, .. } => {
            assert_eq!(source.bytes, accounts[6].key.bytes);
            assert_eq!(delegate.bytes, accounts[7].key.bytes);
            assert_eq!(owner.bytes, accounts[5].key.bytes);
            assert_eq!(*amount, 1_000);
        }
        _ => panic!("expected a delegation second"),
    }
    match &plan[2] {
        Action::InvokeSigned { program, accounts: metas, data, signer_bump } => {
            assert_eq!(program.bytes, accounts[3].key.bytes);
            assert_eq!(*signer_bump, bump);
            assert_eq!(metas.len(), 11);
            assert!(metas[1].is_signer && !metas[1].is_writable);
            assert_eq!(metas[1].key.bytes, accounts[7].key.bytes);
            assert_eq!(metas[10].key.bytes, accounts[15].key.bytes);
            assert!(!metas[10].is_writable);
            assert_eq!(data, &swap_instruction_data(1_000, 5));
        }
        _ => panic!("expected the pool call last"),
    }
}

#[test]
fn swap_data_layout() {
    let d = swap_instruction_data(1_000, 5);
    assert_eq!(d.len(), 42);
    assert_eq!(&d[0..8], &[0xf8, 0xc6, 0x9e, 0x91, 0xe1, 0x75, 0x87, 0xc8]);
    assert_eq!(&d[8..16], &1_000u64.to_le_bytes());
    assert_eq!(&d[16..24], &5u64.to_le_bytes());
    assert_eq!(&d[24..40], &MAX_SQRT_PRICE_X64.to_le_bytes());
    assert_eq!(&d[40..42], &[1, 0]);
}

#[test]
fn insufficient_funds_issues_nothing() {
    let accounts = swap_accounts(999);
    assert_eq!(
        swap_usdc_for_bono(&program_id(), &accounts, 1_000, 5).err(),
        Some(CreditError::InsufficientFunds)
    );
    let mut data = vec![0u8];
    data.extend_from_slice(&1_000u64.to_le_bytes());
    data.extend_from_slice(&5u64.to_le_bytes());
    assert!(matches!(
        process_instruction(&program_id(), &accounts, &data),
        Err(CreditError::InsufficientFunds)
    ));
}

#[test]
fn exact_balance_is_enough() {
    let accounts = swap_accounts(1_000);
    assert!(swap_usdc_for_bono(&program_id(), &accounts, 1_000, 0).is_ok());
    let mut data = vec![0u8];
    data.extend_from_slice(&1_000u64.to_le_bytes());
    data.extend_from_slice(&0u64.to_le_bytes());
    assert!(matches!(process_instruction(&program_id(), &accounts, &data), Ok(Outcome::Swap(_))));
}

#[test]
fn swap_account_count() {
    let mut accounts = swap_accounts(1_000);
    accounts.push(AccountView { key: Address { bytes: [0u8; 32] }, data: Vec::new() });
    assert_eq!(
        swap_usdc_for_bono(&program_id(), &accounts, 1, 0).err(),
        Some(CreditError::TooManyAccountKeys)
    );
    accounts.truncate(15);
    assert_eq!(
        swap_usdc_for_bono(&program_id(), &accounts, 1, 0).err(),
        Some(CreditError::NotEnoughAccountKeys)
    );
}

#[test]
fn wrong_authority_is_refused() {
    let mut accounts = swap_accounts(1_000);
    accounts[7].key = Address { bytes: [7u8; 32] };
    assert_eq!(
        swap_usdc_for_bono(&program_id(), &accounts, 1, 0).err(),
        Some(CreditError::InvalidAccountData)
    );
}

#[test]
fn malformed_token_account_is_refused() {
    let mut accounts = swap_accounts(1_000);
    accounts[6].data[108] = 3;
    assert_eq!(
        swap_usdc_for_bono(&program_id(), &accounts, 1, 0).err(),
        Some(CreditError::InvalidAccountData)
    );
    accounts[6].data = vec![0u8; 164];
    assert_eq!(
        swap_usdc_for_bono(&program_id(), &accounts, 1, 0).err(),
        Some(CreditError::InvalidAccountData)
    );
}

#[test]
fn bad_instruction_is_refused_before_anything() {
    let accounts = swap_accounts(1_000);
    assert!(matches!(
        process_instruction(&program_id(), &accounts, &[7u8, 1, 2]),
        Err(CreditError::InvalidInstructionData)
    ));
}
