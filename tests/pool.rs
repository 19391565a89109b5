use credit_swap::address::Address;
use credit_swap::error::CreditError;
use credit_swap::processor::{process_instruction, read_bono_price, AccountView, Outcome};
use credit_swap::whirlpool::{Whirlpool, WHIRLPOOL_LEN};

fn pool_bytes(sqrt_price: u128) -> Vec<u8> {
    let mut b: Vec<u8> = (0..WHIRLPOOL_LEN).map(|i| (i % 251) as u8).collect();
    b[65..81].copy_from_slice(&sqrt_price.to_le_bytes());
    b
}

fn pool_account(sqrt_price: u128) -> AccountView {
    AccountView { key: Address { bytes: [9u8; 32] }, data: pool_bytes(sqrt_price) }
}

#[test]
fn pool_layout_fields() {
    let mut b = pool_bytes(0x1122_3344_5566_7788_99aa_bbcc_ddee_ff00);
    b[41..43].copy_from_slice(&64u16.to_le_bytes());
    b[81..85].copy_from_slice(&(-1234i32).to_le_bytes());
    b[101..133].copy_from_slice(&[7u8; 32]);
    b[269 + 128 + 96..269 + 128 + 112].copy_from_slice(&99u128.to_le_bytes());
    let w = Whirlpool::try_from_slice(&b).unwrap();
    assert_eq!(w.sqrt_price, 0x1122_3344_5566_7788_99aa_bbcc_ddee_ff00);
    assert_eq!(w.tick_spacing, 64);
    assert_eq!(w.tick_current_index, -1234);
    assert_eq!(w.token_mint_a.bytes, [7u8; 32]);
    assert_eq!(w.discriminator, [0, 1, 2, 3, 4, 5, 6, 7]);
    assert_eq!(w.reward_infos[1].emissions_per_second_x64, 99);
    assert_eq!(w.reward_infos[2].mint.bytes[0], ((269 + 256) % 251) as u8);
}

#[test]
fn short_pool_buffers_fail() {
    let b = pool_bytes(1);
    for len in [0usize, 1, 80, 652] {
        assert_eq!(Whirlpool::try_from_slice(&b[..len]).err(), Some(CreditError::InvalidAccountData));
    }
    let mut long = b.clone();
    long.push(0);
    assert_eq!(Whirlpool::try_from_slice(&long).err(), Some(CreditError::InvalidAccountData));
}

#[test]
fn quote_one_whole_token() {
    let pid = Address { bytes: [1u8; 32] };
    let q = read_bono_price(&pid, &[pool_account(922_337_203_685_477_581)], 1_000_000_000).unwrap();
    assert_eq!(q.price_micro, 2_500_000);
    assert_eq!(q.usdc_value_micro, 2_500_000);
    assert_eq!(q.bono_amount, 1_000_000_000);
}

#[test]
fn zero_amount_through_instruction_is_worth_zero() {
    let pid = Address { bytes: [1u8; 32] };
    let mut data = vec![1u8];
    data.extend_from_slice(&[0u8; 8]);
    match process_instruction(&pid, &[pool_account(922_337_203_685_477_581)], &data) {
        Ok(Outcome::Price(q)) => {
            assert_eq!(q.usdc_value_micro, 0);
            assert_eq!(q.bono_amount, 0);
        }
        _ => panic!("expected a price"),
    }
}

#[test]
fn quote_account_count() {
    let pid = Address { bytes: [1u8; 32] };
    assert_eq!(read_bono_price(&pid, &[], 1), Err(CreditError::NotEnoughAccountKeys));
    assert_eq!(
        read_bono_price(&pid, &[pool_account(1), pool_account(1)], 1),
        Err(CreditError::TooManyAccountKeys)
    );
    let short = AccountView { key: Address { bytes: [0u8; 32] }, data: vec![0u8; 100] };
    assert_eq!(read_bono_price(&pid, &[short], 1), Err(CreditError::InvalidAccountData));
}

#[test]
fn quote_overflow() {
    let pid = Address { bytes: [1u8; 32] };
    assert_eq!(read_bono_price(&pid, &[pool_account(u128::MAX)], 1), Err(CreditError::ArithmeticOverflow));
}
