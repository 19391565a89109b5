//! The program's signing authority: an address derived from a fixed seed and
//! the program's own address, which only the program can sign for.
use solana_program::pubkey::Pubkey;
use vstd::prelude::*;

use crate::address::Address;
use crate::error::CreditError;

verus! {

/// The seed `CREDIT_SIGNING_PDA` of the signing authority.
pub open spec fn signing_seed() -> Seq<u8> {
    seq![67u8, 82, 69, 68, 73, 84, 95, 83, 73, 71, 78, 73, 78, 71, 95, 80, 68, 65]
}

/// The seed of the signing authority, as bytes.
pub fn credit_signing_pda_seed() -> (r: [u8; 18])
    ensures
        r@ == signing_seed(),
{
    let r: [u8; 18] = [67u8, 82, 69, 68, 73, 84, 95, 83, 73, 71, 78, 73, 78, 71, 95, 80, 68, 65];
    assert(r@ =~= signing_seed());
    r
}

/// The address and bump that the runtime derives from `seed` under
/// `program_id`, if some bump gives an address off the curve.
pub uninterp spec fn program_address(seed: Seq<u8>, program_id: Seq<u8>) -> Option<(Seq<u8>, u8)>;

/// Relies on solana_program's `Pubkey::try_find_program_address`: it hashes
/// the seed, a bump and the program id, trying bumps from 255 down, so its
/// result depends on the seed and the program id alone.
#[verifier::external_body]
fn try_find_program_address(seed: &[u8], program_id: &Address) -> (r: Option<(Address, u8)>)
    ensures
        match r {
            Some((a, bump)) => program_address(seed@, program_id@) == Some((a@, bump)),
            None => program_address(seed@, program_id@) is None,
        },
{
    Pubkey::try_find_program_address(&[seed], &Pubkey::new_from_array(program_id.bytes)).map(
        |(key, bump)| (Address { bytes: key.to_bytes() }, bump),
    )
}

/// The signing authority of a program and the bump that derives it.
#[derive(Clone, Copy, Debug)]
pub struct DerivedAuthority {
    pub address: Address,
    pub bump: u8,
}

/// What checking `supplied` as the authority of `program_id` gives: the
/// derived address and bump where `supplied` is that address.
pub open spec fn authority_check(program_id: Seq<u8>, supplied: Seq<u8>) -> Result<
    (Seq<u8>, u8),
    CreditError,
> {
    match program_address(signing_seed(), program_id) {
        None => Err(CreditError::AuthorityUnavailable),
        Some((a, bump)) => if supplied == a {
            Ok((a, bump))
        } else {
            Err(CreditError::InvalidAccountData)
        },
    }
}

/// Derives the signing authority of `program_id`.
pub fn derive_authority(program_id: &Address) -> (r: Result<DerivedAuthority, CreditError>)
    ensures
        match program_address(signing_seed(), program_id@) {
            None => r == Err::<DerivedAuthority, CreditError>(CreditError::AuthorityUnavailable),
            Some((a, bump)) => r matches Ok(d) && d.address@ == a && d.bump == bump,
        },
{
    let seed = credit_signing_pda_seed();
    match try_find_program_address(&seed, program_id) {
        Some((address, bump)) => Ok(DerivedAuthority { address, bump }),
        None => Err(CreditError::AuthorityUnavailable),
    }
}

/// Derives the signing authority of `program_id` and accepts `supplied` only
/// where it is that authority.
pub fn check_authority(program_id: &Address, supplied: &Address) -> (r: Result<
    DerivedAuthority,
    CreditError,
>)
    ensures
        match authority_check(program_id@, supplied@) {
            Ok((a, bump)) => r matches Ok(d) && d.address@ == a && d.bump == bump,
            Err(e) => r == Err::<DerivedAuthority, CreditError>(e),
        },
{
    let d = derive_authority(program_id)?;
    if d.address.same_as(supplied) {
        Ok(d)
    } else {
        Err(CreditError::InvalidAccountData)
    }
}

/// The authority check depends on the program and the supplied address
/// alone, and accepts no address but the derived one.
pub proof fn lemma_authority_deterministic(
    program_id: Seq<u8>,
    other_program_id: Seq<u8>,
    supplied: Seq<u8>,
)
    requires
        program_id == other_program_id,
    ensures
        program_address(signing_seed(), program_id) == program_address(
            signing_seed(),
            other_program_id,
        ),
        authority_check(program_id, supplied) == authority_check(other_program_id, supplied),
        authority_check(program_id, supplied) matches Ok((a, _)) ==> a == supplied,
        program_address(signing_seed(), program_id) matches Some((a, _)) ==> (supplied != a
            <==> authority_check(program_id, supplied) == Err::<(Seq<u8>, u8), CreditError>(
            CreditError::InvalidAccountData,
        )),
{
}

} // verus!
