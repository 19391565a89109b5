use vstd::bytes::{
    lemma_auto_spec_u64_to_from_le_bytes, spec_u64_from_le_bytes, spec_u64_to_le_bytes,
    u64_from_le_bytes, u64_to_le_bytes,
};
use vstd::prelude::*;

use crate::error::CreditError;
use crate::layout::slice_range;

verus! {

/// Tag byte of a swap instruction.
pub const SWAP_TAG: u8 = 0;

/// Tag byte of a price query instruction.
pub const READ_BONO_PRICE_TAG: u8 = 1;

/// One decoded instruction of the program.
#[derive(Clone, Copy, Debug, PartialEq, Eq, Structural)]
pub enum CreditInstruction {
    /// Swap `usdc_amount` of the quote token for at least `bono_amount_threshold` of the base token.
    Swap { usdc_amount: u64, bono_amount_threshold: u64 },
    /// Report the quote-token value of `bono_amount` base-token units at the pool's price.
    ReadBonoPrice { bono_amount: u64 },
}

/// What a byte buffer decodes to: a tag byte, then the fixed-width
/// little-endian fields of that variant and nothing more.
pub open spec fn decode(b: Seq<u8>) -> Option<CreditInstruction> {
    if b.len() == 17 && b[0] == SWAP_TAG {
        Some(
            CreditInstruction::Swap {
                usdc_amount: spec_u64_from_le_bytes(b.subrange(1, 9)),
                bono_amount_threshold: spec_u64_from_le_bytes(b.subrange(9, 17)),
            },
        )
    } else if b.len() == 9 && b[0] == READ_BONO_PRICE_TAG {
        Some(CreditInstruction::ReadBonoPrice { bono_amount: spec_u64_from_le_bytes(b.subrange(1, 9)) })
    } else {
        None
    }
}

/// The wire form of an instruction.
pub open spec fn encode(i: CreditInstruction) -> Seq<u8> {
    match i {
        CreditInstruction::Swap { usdc_amount, bono_amount_threshold } => seq![SWAP_TAG]
            + spec_u64_to_le_bytes(usdc_amount) + spec_u64_to_le_bytes(bono_amount_threshold),
        CreditInstruction::ReadBonoPrice { bono_amount } => seq![READ_BONO_PRICE_TAG]
            + spec_u64_to_le_bytes(bono_amount),
    }
}

impl CreditInstruction {
    /// Decodes an instruction; any buffer that is not exactly the wire form of
    /// one instruction is rejected with `InvalidInstructionData`.
    pub fn unpack(input: &[u8]) -> (r: Result<CreditInstruction, CreditError>)
        ensures
            match decode(input@) {
                Some(i) => r == Ok::<CreditInstruction, CreditError>(i),
                None => r == Err::<CreditInstruction, CreditError>(
                    CreditError::InvalidInstructionData,
                ),
            },
    {
        if input.len() == 0 {
            return Err(CreditError::InvalidInstructionData);
        }
        let variant = input[0];
        if variant == SWAP_TAG && input.len() == 17 {
            let usdc_amount = u64_from_le_bytes(slice_range(input, 1, 9));
            let bono_amount_threshold = u64_from_le_bytes(slice_range(input, 9, 17));
            Ok(CreditInstruction::Swap { usdc_amount, bono_amount_threshold })
        } else if variant == READ_BONO_PRICE_TAG && input.len() == 9 {
            let bono_amount = u64_from_le_bytes(slice_range(input, 1, 9));
            Ok(CreditInstruction::ReadBonoPrice { bono_amount })
        } else {
            Err(CreditError::InvalidInstructionData)
        }
    }

    /// Encodes the instruction in its wire form.
    pub fn pack(&self) -> (r: Vec<u8>)
        ensures
            r@ == encode(*self),
    {
        let mut out: Vec<u8> = Vec::new();
        match *self {
            CreditInstruction::Swap { usdc_amount, bono_amount_threshold } => {
                out.push(SWAP_TAG);
                let mut a = u64_to_le_bytes(usdc_amount);
                let mut b = u64_to_le_bytes(bono_amount_threshold);
                out.append(&mut a);
                out.append(&mut b);
            },
            CreditInstruction::ReadBonoPrice { bono_amount } => {
                out.push(READ_BONO_PRICE_TAG);
                let mut a = u64_to_le_bytes(bono_amount);
                out.append(&mut a);
            },
        }
        assert(out@ =~= encode(*self));
        out
    }
}

/// A buffer whose first byte is no known tag never decodes.
pub proof fn lemma_unknown_tag_rejected(b: Seq<u8>)
    requires
        b.len() > 0,
        b[0] != SWAP_TAG,
        b[0] != READ_BONO_PRICE_TAG,
    ensures
        decode(b) is None,
{
}

/// Decoding the wire form of any instruction gives that instruction back.
pub proof fn lemma_decode_encode(i: CreditInstruction)
    ensures
        decode(encode(i)) == Some(i),
{
    lemma_auto_spec_u64_to_from_le_bytes();
    let e = encode(i);
    match i {
        CreditInstruction::Swap { usdc_amount, bono_amount_threshold } => {
            assert(e.subrange(1, 9) =~= spec_u64_to_le_bytes(usdc_amount));
            assert(e.subrange(9, 17) =~= spec_u64_to_le_bytes(bono_amount_threshold));
        },
        CreditInstruction::ReadBonoPrice { bono_amount } => {
            assert(e.subrange(1, 9) =~= spec_u64_to_le_bytes(bono_amount));
        },
    }
}

} // verus!
