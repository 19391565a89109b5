use vstd::prelude::*;

verus! {

/// The ways an invocation of the program can fail.
#[derive(Clone, Copy, Debug, PartialEq, Eq, Structural)]
pub enum CreditError {
    /// The instruction bytes are empty, carry an unknown tag, or a payload of the wrong size.
    InvalidInstructionData,
    /// An account holds data of the wrong shape, or the derived authority does not match.
    InvalidAccountData,
    /// The signer's token balance is below the amount asked to swap.
    InsufficientFunds,
    /// Fewer accounts were supplied than the operation's schema names.
    NotEnoughAccountKeys,
    /// More accounts were supplied than the operation's schema names.
    TooManyAccountKeys,
    /// No bump seed gives an address off the curve for the authority seed.
    AuthorityUnavailable,
    /// A fixed-point conversion does not fit in 128 bits.
    ArithmeticOverflow,
}

} // verus!
