//! The fixed byte layout of a pool account, as the pool program stores it.
use vstd::bytes::{
    spec_u128_from_le_bytes, spec_u16_from_le_bytes, spec_u32_from_le_bytes,
    spec_u64_from_le_bytes, u128_from_le_bytes, u16_from_le_bytes, u32_from_le_bytes,
    u64_from_le_bytes,
};
use vstd::prelude::*;

use crate::address::Address;
use crate::error::CreditError;
use crate::layout::{read_array, slice_range};

verus! {

/// Number of reward records a pool carries.
pub const NUM_REWARDS: usize = 3;

/// Bytes of one reward record.
pub const REWARD_INFO_LEN: usize = 128;

/// Offset of the first reward record in a pool account.
pub const REWARD_INFOS_OFFSET: usize = 269;

/// Bytes of a pool account.
pub const WHIRLPOOL_LEN: usize = 653;

/// A snapshot of a pool account.
#[derive(Clone, Copy, Debug)]
pub struct Whirlpool {
    /// Account discriminator written by the pool program.
    pub discriminator: [u8; 8],
    /// Configuration account the pool belongs to.
    pub whirlpools_config: Address,
    /// Bump seed of the pool's own address.
    pub whirlpool_bump: [u8; 1],
    /// Spacing of initializable ticks.
    pub tick_spacing: u16,
    /// Tick spacing as the bytes of the address seed.
    pub tick_spacing_seed: [u8; 2],
    /// Fee rate in hundredths of a basis point.
    pub fee_rate: u16,
    /// Share of the fee taken by the protocol, in basis points.
    pub protocol_fee_rate: u16,
    /// Liquidity currently in range.
    pub liquidity: u128,
    /// Square root of the price of token A in token B, Q64.64.
    pub sqrt_price: u128,
    /// Index of the tick the price lies in.
    pub tick_current_index: i32,
    /// Protocol fees owed in token A.
    pub protocol_fee_owed_a: u64,
    /// Protocol fees owed in token B.
    pub protocol_fee_owed_b: u64,
    /// Mint of token A.
    pub token_mint_a: Address,
    /// Vault holding the pool's token A.
    pub token_vault_a: Address,
    /// Fee growth per unit of liquidity in token A, Q64.64.
    pub fee_growth_global_a: u128,
    /// Mint of token B.
    pub token_mint_b: Address,
    /// Vault holding the pool's token B.
    pub token_vault_b: Address,
    /// Fee growth per unit of liquidity in token B, Q64.64.
    pub fee_growth_global_b: u128,
    /// Time of the last reward update.
    pub reward_last_updated_timestamp: u64,
    /// The pool's reward records.
    pub reward_infos: [WhirlpoolRewardInfo; 3],
}

/// One reward record of a pool.
#[derive(Clone, Copy, Debug)]
pub struct WhirlpoolRewardInfo {
    /// Reward token mint.
    pub mint: Address,
    /// Reward vault token account.
    pub vault: Address,
    /// Account allowed to initialize the reward and set emissions.
    pub authority: Address,
    /// Tokens earned per second per unit of liquidity, Q64.64.
    pub emissions_per_second_x64: u128,
    /// Tokens earned per unit of liquidity since emissions began, Q64.64.
    pub growth_global_x64: u128,
}

/// `w` holds the reward record stored at offset `off` of `b`.
pub open spec fn reward_info_layout(w: WhirlpoolRewardInfo, b: Seq<u8>, off: int) -> bool {
    &&& w.mint@ == b.subrange(off + 0, off + 32)
    &&& w.vault@ == b.subrange(off + 32, off + 64)
    &&& w.authority@ == b.subrange(off + 64, off + 96)
    &&& w.emissions_per_second_x64 == spec_u128_from_le_bytes(b.subrange(off + 96, off + 112))
    &&& w.growth_global_x64 == spec_u128_from_le_bytes(b.subrange(off + 112, off + 128))
}

/// `w` holds the pool record stored in `b`, field by field, every integer little-endian.
pub open spec fn whirlpool_layout(w: Whirlpool, b: Seq<u8>) -> bool {
    &&& w.discriminator@ == b.subrange(0, 8)
    &&& w.whirlpools_config@ == b.subrange(8, 40)
    &&& w.whirlpool_bump@ == b.subrange(40, 41)
    &&& w.tick_spacing == spec_u16_from_le_bytes(b.subrange(41, 43))
    &&& w.tick_spacing_seed@ == b.subrange(43, 45)
    &&& w.fee_rate == spec_u16_from_le_bytes(b.subrange(45, 47))
    &&& w.protocol_fee_rate == spec_u16_from_le_bytes(b.subrange(47, 49))
    &&& w.liquidity == spec_u128_from_le_bytes(b.subrange(49, 65))
    &&& w.sqrt_price == spec_u128_from_le_bytes(b.subrange(65, 81))
    &&& w.tick_current_index == spec_u32_from_le_bytes(b.subrange(81, 85)) as i32
    &&& w.protocol_fee_owed_a == spec_u64_from_le_bytes(b.subrange(85, 93))
    &&& w.protocol_fee_owed_b == spec_u64_from_le_bytes(b.subrange(93, 101))
    &&& w.token_mint_a@ == b.subrange(101, 133)
    &&& w.token_vault_a@ == b.subrange(133, 165)
    &&& w.fee_growth_global_a == spec_u128_from_le_bytes(b.subrange(165, 181))
    &&& w.token_mint_b@ == b.subrange(181, 213)
    &&& w.token_vault_b@ == b.subrange(213, 245)
    &&& w.fee_growth_global_b == spec_u128_from_le_bytes(b.subrange(245, 261))
    &&& w.reward_last_updated_timestamp == spec_u64_from_le_bytes(b.subrange(261, 269))
    &&& w.reward_infos@.len() == NUM_REWARDS
    &&& forall|k: int|
        0 <= k < NUM_REWARDS ==> #[trigger] reward_info_layout(
            w.reward_infos@[k],
            b,
            REWARD_INFOS_OFFSET + k * REWARD_INFO_LEN,
        )
}

impl WhirlpoolRewardInfo {
    /// Reads the reward record that starts at `off`.
    fn read_at(b: &[u8], off: usize) -> (r: WhirlpoolRewardInfo)
        requires
            off + REWARD_INFO_LEN <= b@.len(),
            b@.len() <= WHIRLPOOL_LEN,
        ensures
            reward_info_layout(r, b@, off as int),
    {
        WhirlpoolRewardInfo {
            mint: Address { bytes: read_array(b, off + 0) },
            vault: Address { bytes: read_array(b, off + 32) },
            authority: Address { bytes: read_array(b, off + 64) },
            emissions_per_second_x64: u128_from_le_bytes(slice_range(b, off + 96, off + 112)),
            growth_global_x64: u128_from_le_bytes(slice_range(b, off + 112, off + 128)),
        }
    }
}

impl Whirlpool {
    /// Parses a pool account. Exactly `WHIRLPOOL_LEN` bytes are a pool
    /// record; any other length is rejected with `InvalidAccountData`.
    pub fn try_from_slice(b: &[u8]) -> (r: Result<Whirlpool, CreditError>)
        ensures
            b@.len() == WHIRLPOOL_LEN <==> r is Ok,
            r is Err ==> r == Err::<Whirlpool, CreditError>(CreditError::InvalidAccountData),
            r matches Ok(w) ==> whirlpool_layout(w, b@),
    {
        if b.len() != WHIRLPOOL_LEN {
            return Err(CreditError::InvalidAccountData);
        }
        let r0 = WhirlpoolRewardInfo::read_at(b, REWARD_INFOS_OFFSET);
        let r1 = WhirlpoolRewardInfo::read_at(b, REWARD_INFOS_OFFSET + REWARD_INFO_LEN);
        let r2 = WhirlpoolRewardInfo::read_at(b, REWARD_INFOS_OFFSET + 2 * REWARD_INFO_LEN);
        let w = Whirlpool {
            discriminator: read_array(b, 0),
            whirlpools_config: Address { bytes: read_array(b, 8) },
            whirlpool_bump: read_array(b, 40),
            tick_spacing: u16_from_le_bytes(slice_range(b, 41, 43)),
            tick_spacing_seed: read_array(b, 43),
            fee_rate: u16_from_le_bytes(slice_range(b, 45, 47)),
            protocol_fee_rate: u16_from_le_bytes(slice_range(b, 47, 49)),
            liquidity: u128_from_le_bytes(slice_range(b, 49, 65)),
            sqrt_price: u128_from_le_bytes(slice_range(b, 65, 81)),
            tick_current_index: u32_from_le_bytes(slice_range(b, 81, 85)) as i32,
            protocol_fee_owed_a: u64_from_le_bytes(slice_range(b, 85, 93)),
            protocol_fee_owed_b: u64_from_le_bytes(slice_range(b, 93, 101)),
            token_mint_a: Address { bytes: read_array(b, 101) },
            token_vault_a: Address { bytes: read_array(b, 133) },
            fee_growth_global_a: u128_from_le_bytes(slice_range(b, 165, 181)),
            token_mint_b: Address { bytes: read_array(b, 181) },
            token_vault_b: Address { bytes: read_array(b, 213) },
            fee_growth_global_b: u128_from_le_bytes(slice_range(b, 245, 261)),
            reward_last_updated_timestamp: u64_from_le_bytes(slice_range(b, 261, 269)),
            reward_infos: [r0, r1, r2],
        };
        assert(forall|k: int|
            0 <= k < NUM_REWARDS ==> #[trigger] reward_info_layout(
                w.reward_infos@[k],
                b@,
                REWARD_INFOS_OFFSET + k * REWARD_INFO_LEN,
            )) by {
            assert(w.reward_infos@[0] == r0);
            assert(w.reward_infos@[1] == r1);
            assert(w.reward_infos@[2] == r2);
        }
        Ok(w)
    }
}

} // verus!
