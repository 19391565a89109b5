//! The token ledger's account record, as far as the swap reads it.
use solana_program::program_pack::Pack;
use spl_token::state::Account as TokenAccount;
use vstd::bytes::spec_u64_from_le_bytes;
use vstd::prelude::*;

verus! {

/// Bytes of a token account record.
pub const TOKEN_ACCOUNT_LEN: usize = 165;

/// A four-byte option tag: absent or present.
pub open spec fn option_tag_valid(t: Seq<u8>) -> bool {
    t == seq![0u8, 0, 0, 0] || t == seq![1u8, 0, 0, 0]
}

/// `d` is a well-formed token account record: the right length, a known
/// account state, and valid tags on its three optional fields.
pub open spec fn is_token_account(d: Seq<u8>) -> bool {
    &&& d.len() == TOKEN_ACCOUNT_LEN
    &&& option_tag_valid(d.subrange(72, 76))
    &&& d[108] <= 2
    &&& option_tag_valid(d.subrange(109, 113))
    &&& option_tag_valid(d.subrange(129, 133))
}

/// The balance that a token account record holds, where it is well formed.
pub open spec fn token_amount(d: Seq<u8>) -> Option<u64> {
    if is_token_account(d) {
        Some(spec_u64_from_le_bytes(d.subrange(64, 72)))
    } else {
        None
    }
}

/// Relies on spl_token's `Account::unpack_unchecked`: it rejects any length
/// but 165, unknown state bytes and option tags other than absent or present,
/// and reads the balance as the little-endian u64 at byte 64.
#[verifier::external_body]
pub(crate) fn unpack_token_amount(data: &[u8]) -> (r: Option<u64>)
    ensures
        r == token_amount(data@),
{
    TokenAccount::unpack_unchecked(data).ok().map(|account| account.amount)
}

} // verus!
