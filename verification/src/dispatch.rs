//! Decoding of tagged invocations into operations.

use vstd::prelude::*;

verus! {

/// Operation code that routes an invocation to the initialization guard.
pub const INITIALIZE_OPCODE: u128 = 0;

/// Operation code that routes an invocation to the trade equality
/// validator.
pub const FILTER_OPCODE: u128 = 7;

/// One decoded invocation of the contract.
#[derive(PartialEq, Eq, Structural, Clone, Copy, Debug)]
pub enum Operation {
    /// Run the one-time initialization guard. Takes no parameters.
    Initialize,
    /// Run the trade equality validator against the four configured trade
    /// terms: asset sequence number and quantity for each of the two legs.
    Filter {
        sequence_left: u128,
        amount_left: u128,
        sequence_right: u128,
        amount_right: u128,
    },
}

/// The fixed decoding schema: opcode `INITIALIZE_OPCODE` with no parameter
/// words is `Initialize`; opcode `FILTER_OPCODE` with exactly four
/// parameter words is `Filter`, the words taken in order; anything else
/// is not an operation.
pub open spec fn spec_decode_operation(opcode: u128, params: Seq<u128>) -> Option<Operation> {
    if opcode == INITIALIZE_OPCODE && params.len() == 0 {
        Some(Operation::Initialize)
    } else if opcode == FILTER_OPCODE && params.len() == 4 {
        Some(
            Operation::Filter {
                sequence_left: params[0],
                amount_left: params[1],
                sequence_right: params[2],
                amount_right: params[3],
            },
        )
    } else {
        None
    }
}

/// Decodes an opcode and its parameter words into an operation, following
/// the fixed schema per variant.
pub fn decode_operation(opcode: u128, params: &Vec<u128>) -> (r: Option<Operation>)
    ensures
        r == spec_decode_operation(opcode, params@),
{
    if opcode == INITIALIZE_OPCODE && params.len() == 0 {
        Some(Operation::Initialize)
    } else if opcode == FILTER_OPCODE && params.len() == 4 {
        Some(
            Operation::Filter {
                sequence_left: params[0],
                amount_left: params[1],
                sequence_right: params[2],
                amount_right: params[3],
            },
        )
    } else {
        None
    }
}

} // verus!
