//! Decoding an instruction and deciding what it asks of the token ledger
//! and the pool program. The decisions are verified here; the calls they
//! name are made by the host around the library.
use vstd::bytes::{
    spec_u128_from_le_bytes, spec_u128_to_le_bytes, spec_u64_to_le_bytes, u128_to_le_bytes,
    u64_to_le_bytes,
};
use vstd::prelude::*;

use crate::address::Address;
use crate::authority::{authority_check, check_authority};
use crate::error::CreditError;
use crate::instruction::{decode, CreditInstruction};
use crate::pricemath::{
    display_price, price_micro, quote_in_range, value_at_sqrt_price,
    value_micro, DISPLAY_DIGITS,
};
use crate::token::{token_amount, unpack_token_amount};
use crate::whirlpool::{Whirlpool, WHIRLPOOL_LEN};

verus! {

/// Decimals of the token bought (token A of the pool).
pub const BONO_DECIMALS: i8 = 9;

/// Decimals of the token sold (token B of the pool).
pub const USDC_DECIMALS: i8 = 6;

/// The largest square-root price the pool accepts, used as "no price limit".
pub const MAX_SQRT_PRICE_X64: u128 = 79226673515401279992447579055;

/// Number of accounts a swap names.
pub const SWAP_ACCOUNT_COUNT: usize = 16;

/// An account handed to the program: its address and its data.
pub struct AccountView {
    pub key: Address,
    pub data: Vec<u8>,
}

/// An account named in an outbound call.
#[derive(Clone, Copy, Debug)]
pub struct AccountMeta {
    pub key: Address,
    pub is_signer: bool,
    pub is_writable: bool,
}

/// The accounts of a swap, by role, in the order the caller supplies them.
#[derive(Clone, Copy, Debug)]
pub struct SwapAccounts {
    /// The system program.
    pub system_program: Address,
    /// The token ledger program.
    pub token_program: Address,
    /// The associated-token-account program.
    pub associated_token_program: Address,
    /// The pool program.
    pub whirlpool_program: Address,
    /// Mint of the token bought.
    pub bono_mint: Address,
    /// The caller, who pays and signs.
    pub signer: Address,
    /// The caller's account of the token sold.
    pub signer_usdc_ata: Address,
    /// The program's signing authority.
    pub credit_signing_pda: Address,
    /// The authority's account of the token bought.
    pub credit_signing_pda_bono_ata: Address,
    /// The pool account.
    pub whirlpool: Address,
    /// The pool's vault of the token bought.
    pub vault_a_bono: Address,
    /// The pool's vault of the token sold.
    pub vault_b_usdc: Address,
    /// First tick array, forwarded as given.
    pub tick_array_0: Address,
    /// Second tick array, forwarded as given.
    pub tick_array_1: Address,
    /// Third tick array, forwarded as given.
    pub tick_array_2: Address,
    /// The pool's oracle account.
    pub oracle: Address,
}

/// The swap roles bound to the supplied accounts, by position.
pub open spec fn schema_of(a: Seq<AccountView>) -> SwapAccounts {
    SwapAccounts {
        system_program: a[0].key,
        token_program: a[1].key,
        associated_token_program: a[2].key,
        whirlpool_program: a[3].key,
        bono_mint: a[4].key,
        signer: a[5].key,
        signer_usdc_ata: a[6].key,
        credit_signing_pda: a[7].key,
        credit_signing_pda_bono_ata: a[8].key,
        whirlpool: a[9].key,
        vault_a_bono: a[10].key,
        vault_b_usdc: a[11].key,
        tick_array_0: a[12].key,
        tick_array_1: a[13].key,
        tick_array_2: a[14].key,
        oracle: a[15].key,
    }
}

impl SwapAccounts {
    /// Binds the supplied accounts to the swap roles; exactly
    /// `SWAP_ACCOUNT_COUNT` accounts are accepted.
    pub fn from_accounts(accounts: &[AccountView]) -> (r: Result<SwapAccounts, CreditError>)
        ensures
            accounts@.len() < SWAP_ACCOUNT_COUNT ==> r == Err::<SwapAccounts, CreditError>(
                CreditError::NotEnoughAccountKeys,
            ),
            accounts@.len() > SWAP_ACCOUNT_COUNT ==> r == Err::<SwapAccounts, CreditError>(
                CreditError::TooManyAccountKeys,
            ),
            accounts@.len() == SWAP_ACCOUNT_COUNT ==> r == Ok::<SwapAccounts, CreditError>(
                schema_of(accounts@),
            ),
    {
        if accounts.len() < SWAP_ACCOUNT_COUNT {
            return Err(CreditError::NotEnoughAccountKeys);
        }
        if accounts.len() > SWAP_ACCOUNT_COUNT {
            return Err(CreditError::TooManyAccountKeys);
        }
        Ok(SwapAccounts {
            system_program: accounts[0].key,
            token_program: accounts[1].key,
            associated_token_program: accounts[2].key,
            whirlpool_program: accounts[3].key,
            bono_mint: accounts[4].key,
            signer: accounts[5].key,
            signer_usdc_ata: accounts[6].key,
            credit_signing_pda: accounts[7].key,
            credit_signing_pda_bono_ata: accounts[8].key,
            whirlpool: accounts[9].key,
            vault_a_bono: accounts[10].key,
            vault_b_usdc: accounts[11].key,
            tick_array_0: accounts[12].key,
            tick_array_1: accounts[13].key,
            tick_array_2: accounts[14].key,
            oracle: accounts[15].key,
        })
    }
}

/// A call the program asks the host to make, in order, stopping at the
/// first that fails.
pub enum Action {
    /// Create the associated token account of `wallet` for `mint`, unless it exists.
    CreateAssociatedTokenAccount {
        funder: Address,
        wallet: Address,
        mint: Address,
        token_program: Address,
    },
    /// Let `delegate` move up to `amount` out of `source`, signed by `owner`.
    Approve {
        token_program: Address,
        source: Address,
        delegate: Address,
        owner: Address,
        amount: u64,
    },
    /// Call `program` with `accounts` and `data`, signed for the signing
    /// authority with its seed and `signer_bump`.
    InvokeSigned {
        program: Address,
        accounts: Vec<AccountMeta>,
        data: Vec<u8>,
        signer_bump: u8,
    },
}

/// The accounts of the pool's swap call, in the pool program's order.
pub open spec fn swap_metas(acc: SwapAccounts) -> Seq<AccountMeta> {
    seq![
        AccountMeta { key: acc.token_program, is_signer: false, is_writable: false },
        AccountMeta { key: acc.credit_signing_pda, is_signer: true, is_writable: false },
        AccountMeta { key: acc.whirlpool, is_signer: false, is_writable: true },
        AccountMeta { key: acc.credit_signing_pda_bono_ata, is_signer: false, is_writable: true },
        AccountMeta { key: acc.vault_a_bono, is_signer: false, is_writable: true },
        AccountMeta { key: acc.signer_usdc_ata, is_signer: false, is_writable: true },
        AccountMeta { key: acc.vault_b_usdc, is_signer: false, is_writable: true },
        AccountMeta { key: acc.tick_array_0, is_signer: false, is_writable: true },
        AccountMeta { key: acc.tick_array_1, is_signer: false, is_writable: true },
        AccountMeta { key: acc.tick_array_2, is_signer: false, is_writable: true },
        AccountMeta { key: acc.oracle, is_signer: false, is_writable: false },
    ]
}

/// The pool's swap call data: its 8-byte opcode, the input amount, the least
/// output accepted, the price limit, "amount is input", and "B to A".
pub open spec fn swap_data(amount: u64, threshold: u64) -> Seq<u8> {
    seq![0xf8u8, 0xc6, 0x9e, 0x91, 0xe1, 0x75, 0x87, 0xc8] + spec_u64_to_le_bytes(amount)
        + spec_u64_to_le_bytes(threshold) + spec_u128_to_le_bytes(MAX_SQRT_PRICE_X64) + seq![
        1u8,
        0u8,
    ]
}

/// The accounts of the pool's swap call.
pub fn swap_account_metas(acc: &SwapAccounts) -> (r: Vec<AccountMeta>)
    ensures
        r@ == swap_metas(*acc),
{
    let mut r: Vec<AccountMeta> = Vec::new();
    r.push(AccountMeta { key: acc.token_program, is_signer: false, is_writable: false });
    r.push(AccountMeta { key: acc.credit_signing_pda, is_signer: true, is_writable: false });
    r.push(AccountMeta { key: acc.whirlpool, is_signer: false, is_writable: true });
    r.push(AccountMeta { key: acc.credit_signing_pda_bono_ata, is_signer: false, is_writable: true });
    r.push(AccountMeta { key: acc.vault_a_bono, is_signer: false, is_writable: true });
    r.push(AccountMeta { key: acc.signer_usdc_ata, is_signer: false, is_writable: true });
    r.push(AccountMeta { key: acc.vault_b_usdc, is_signer: false, is_writable: true });
    r.push(AccountMeta { key: acc.tick_array_0, is_signer: false, is_writable: true });
    r.push(AccountMeta { key: acc.tick_array_1, is_signer: false, is_writable: true });
    r.push(AccountMeta { key: acc.tick_array_2, is_signer: false, is_writable: true });
    r.push(AccountMeta { key: acc.oracle, is_signer: false, is_writable: false });
    assert(r@ =~= swap_metas(*acc));
    r
}

/// The data of the pool's swap call.
pub fn swap_instruction_data(amount: u64, threshold: u64) -> (r: Vec<u8>)
    ensures
        r@ == swap_data(amount, threshold),
{
    let mut r: Vec<u8> = Vec::new();
    r.push(0xf8u8);
    r.push(0xc6u8);
    r.push(0x9eu8);
    r.push(0x91u8);
    r.push(0xe1u8);
    r.push(0x75u8);
    r.push(0x87u8);
    r.push(0xc8u8);
    let mut a = u64_to_le_bytes(amount);
    let mut t = u64_to_le_bytes(threshold);
    let mut limit = u128_to_le_bytes(MAX_SQRT_PRICE_X64);
    r.append(&mut a);
    r.append(&mut t);
    r.append(&mut limit);
    r.push(1u8);
    r.push(0u8);
    assert(r@ =~= swap_data(amount, threshold));
    r
}

/// The calls of a swap: create the authority's account of the token bought,
/// delegate `amount` of the caller's tokens to the authority, then swap
/// through the pool signed by the authority.
pub open spec fn is_swap_plan(
    plan: Seq<Action>,
    acc: SwapAccounts,
    bump: u8,
    amount: u64,
    threshold: u64,
) -> bool {
    &&& plan.len() == 3
    &&& plan[0] == Action::CreateAssociatedTokenAccount {
        funder: acc.signer,
        wallet: acc.credit_signing_pda,
        mint: acc.bono_mint,
        token_program: acc.token_program,
    }
    &&& plan[1] == Action::Approve {
        token_program: acc.token_program,
        source: acc.signer_usdc_ata,
        delegate: acc.credit_signing_pda,
        owner: acc.signer,
        amount: amount,
    }
    &&& plan[2] matches Action::InvokeSigned { program, accounts, data, signer_bump }
    &&& program == acc.whirlpool_program
    &&& accounts@ == swap_metas(acc)
    &&& data@ == swap_data(amount, threshold)
    &&& signer_bump == bump
}

/// Why a swap is refused, checked in this order: the account count, the
/// signing authority, the caller's token account, the caller's balance.
pub open spec fn swap_error(program_id: Seq<u8>, accounts: Seq<AccountView>, amount: u64) -> Option<
    CreditError,
> {
    if accounts.len() < SWAP_ACCOUNT_COUNT {
        Some(CreditError::NotEnoughAccountKeys)
    } else if accounts.len() > SWAP_ACCOUNT_COUNT {
        Some(CreditError::TooManyAccountKeys)
    } else {
        match authority_check(program_id, accounts[7].key@) {
            Err(e) => Some(e),
            Ok(_) => match token_amount(accounts[6].data@) {
                None => Some(CreditError::InvalidAccountData),
                Some(balance) => if balance < amount {
                    Some(CreditError::InsufficientFunds)
                } else {
                    None
                },
            },
        }
    }
}

/// Once the accounts and the signing authority are in order, a caller whose
/// balance is below the amount asked is refused with `InsufficientFunds`,
/// so that neither the delegation nor the swap is asked for.
pub proof fn lemma_insufficient_funds_no_calls(
    program_id: Seq<u8>,
    accounts: Seq<AccountView>,
    amount: u64,
    balance: u64,
)
    requires
        accounts.len() == SWAP_ACCOUNT_COUNT,
        authority_check(program_id, accounts[7].key@) is Ok,
        token_amount(accounts[6].data@) == Some(balance),
        balance < amount,
    ensures
        swap_error(program_id, accounts, amount) == Some(CreditError::InsufficientFunds),
{
}

/// `plan` is the swap's calls for these accounts and amounts.
pub open spec fn swap_plan_for(
    program_id: Seq<u8>,
    accounts: Seq<AccountView>,
    amount: u64,
    threshold: u64,
    plan: Seq<Action>,
) -> bool {
    authority_check(program_id, accounts[7].key@) matches Ok((_, bump)) && is_swap_plan(
        plan,
        schema_of(accounts),
        bump,
        amount,
        threshold,
    )
}

/// Decides a swap of `usdc_amount` for at least `bono_amount_threshold`: the
/// calls to make, or why none may be made.
pub fn swap_usdc_for_bono(
    program_id: &Address,
    accounts: &[AccountView],
    usdc_amount: u64,
    bono_amount_threshold: u64,
) -> (r: Result<Vec<Action>, CreditError>)
    ensures
        match swap_error(program_id@, accounts@, usdc_amount) {
            Some(e) => r == Err::<Vec<Action>, CreditError>(e),
            None => r matches Ok(plan) && swap_plan_for(
                program_id@,
                accounts@,
                usdc_amount,
                bono_amount_threshold,
                plan@,
            ),
        },
{
    let acc = SwapAccounts::from_accounts(accounts)?;
    let authority = check_authority(program_id, &acc.credit_signing_pda)?;
    let balance = match unpack_token_amount(accounts[6].data.as_slice()) {
        Some(b) => b,
        None => {
            return Err(CreditError::InvalidAccountData);
        },
    };
    if balance < usdc_amount {
        return Err(CreditError::InsufficientFunds);
    }
    let mut plan: Vec<Action> = Vec::new();
    plan.push(
        Action::CreateAssociatedTokenAccount {
            funder: acc.signer,
            wallet: acc.credit_signing_pda,
            mint: acc.bono_mint,
            token_program: acc.token_program,
        },
    );
    plan.push(
        Action::Approve {
            token_program: acc.token_program,
            source: acc.signer_usdc_ata,
            delegate: acc.credit_signing_pda,
            owner: acc.signer,
            amount: usdc_amount,
        },
    );
    plan.push(
        Action::InvokeSigned {
            program: acc.whirlpool_program,
            accounts: swap_account_metas(&acc),
            data: swap_instruction_data(usdc_amount, bono_amount_threshold),
            signer_bump: authority.bump,
        },
    );
    Ok(plan)
}

/// The pool's price and the value of a queried amount, in millionths.
#[derive(Clone, Copy, Debug, PartialEq, Eq, Structural)]
pub struct BonoQuote {
    pub sqrt_price_x64: u128,
    pub price_micro: u128,
    pub bono_amount: u64,
    pub usdc_value_micro: u128,
}

/// What a price query over `accounts` for `bono_amount` gives.
pub open spec fn quote_result(accounts: Seq<AccountView>, bono_amount: u64) -> Result<
    BonoQuote,
    CreditError,
> {
    if accounts.len() == 0 {
        Err(CreditError::NotEnoughAccountKeys)
    } else if accounts.len() > 1 {
        Err(CreditError::TooManyAccountKeys)
    } else if accounts[0].data@.len() != WHIRLPOOL_LEN {
        Err(CreditError::InvalidAccountData)
    } else {
        let s = spec_u128_from_le_bytes(accounts[0].data@.subrange(65, 81));
        if !quote_in_range(s as int, 1, DISPLAY_DIGITS + BONO_DECIMALS - USDC_DECIMALS)
            || !quote_in_range(s as int, bono_amount as int, DISPLAY_DIGITS - USDC_DECIMALS) {
            Err(CreditError::ArithmeticOverflow)
        } else {
            Ok(
                BonoQuote {
                    sqrt_price_x64: s,
                    price_micro: price_micro(
                        s as int,
                        BONO_DECIMALS as int,
                        USDC_DECIMALS as int,
                    ) as u128,
                    bono_amount,
                    usdc_value_micro: value_micro(
                        s as int,
                        bono_amount as int,
                        USDC_DECIMALS as int,
                    ) as u128,
                },
            )
        }
    }
}

/// Reads the pool account and values `bono_amount` raw units of the token
/// bought in the token sold, at the pool's current price.
pub fn read_bono_price(_program_id: &Address, accounts: &[AccountView], bono_amount: u64) -> (r:
    Result<BonoQuote, CreditError>)
    ensures
        r == quote_result(accounts@, bono_amount),
{
    if accounts.len() == 0 {
        return Err(CreditError::NotEnoughAccountKeys);
    }
    if accounts.len() > 1 {
        return Err(CreditError::TooManyAccountKeys);
    }
    let pool = Whirlpool::try_from_slice(accounts[0].data.as_slice())?;
    let sqrt_price_x64 = pool.sqrt_price;
    let price = match display_price(sqrt_price_x64, BONO_DECIMALS, USDC_DECIMALS) {
        Some(p) => p,
        None => {
            return Err(CreditError::ArithmeticOverflow);
        },
    };
    let value = match value_at_sqrt_price(sqrt_price_x64, bono_amount, USDC_DECIMALS) {
        Some(v) => v,
        None => {
            return Err(CreditError::ArithmeticOverflow);
        },
    };
    Ok(BonoQuote { sqrt_price_x64, price_micro: price, bono_amount, usdc_value_micro: value })
}

/// What an instruction leads to.
pub enum Outcome {
    /// The calls of a swap, to be made in order.
    Swap(Vec<Action>),
    /// The answer to a price query.
    Price(BonoQuote),
}

/// Decodes `instruction_data` and carries out the instruction's decisions.
pub fn process_instruction(
    program_id: &Address,
    accounts: &[AccountView],
    instruction_data: &[u8],
) -> (r: Result<Outcome, CreditError>)
    ensures
        match decode(instruction_data@) {
            None => r == Err::<Outcome, CreditError>(CreditError::InvalidInstructionData),
            Some(CreditInstruction::Swap { usdc_amount, bono_amount_threshold }) => match swap_error(
                program_id@,
                accounts@,
                usdc_amount,
            ) {
                Some(e) => r == Err::<Outcome, CreditError>(e),
                None => r matches Ok(Outcome::Swap(plan)) && swap_plan_for(
                    program_id@,
                    accounts@,
                    usdc_amount,
                    bono_amount_threshold,
                    plan@,
                ),
            },
            Some(CreditInstruction::ReadBonoPrice { bono_amount }) => match quote_result(
                accounts@,
                bono_amount,
            ) {
                Ok(q) => r == Ok::<Outcome, CreditError>(Outcome::Price(q)),
                Err(e) => r == Err::<Outcome, CreditError>(e),
            },
        },
{
    let instruction = CreditInstruction::unpack(instruction_data)?;
    match instruction {
        CreditInstruction::Swap { usdc_amount, bono_amount_threshold } => {
            let plan = swap_usdc_for_bono(program_id, accounts, usdc_amount, bono_amount_threshold)?;
            Ok(Outcome::Swap(plan))
        },
        CreditInstruction::ReadBonoPrice { bono_amount } => {
            let quote = read_bono_price(program_id, accounts, bono_amount)?;
            Ok(Outcome::Price(quote))
        },
    }
}

} // verus!
