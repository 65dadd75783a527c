//! Routing of instructions that the program's interface does not name.
use vstd::prelude::*;

use crate::errors::ErrorCode;

verus! {

/// The instruction identifier of a liquidation through a DEX.
pub const LIQUIDATE_DEX_INSTR_ID: [u8; 8] = [28, 129, 253, 125, 243, 52, 11, 162];

/// The bytes of `LIQUIDATE_DEX_INSTR_ID`.
pub open spec fn liquidate_dex_instr_id() -> Seq<u8> {
    seq![28u8, 129, 253, 125, 243, 52, 11, 162]
}

/// Route raw instruction data: where its first eight bytes are
/// `LIQUIDATE_DEX_INSTR_ID`, the rest of it is a DEX liquidation's data,
/// which is returned; anything else is an `UnknownInstruction`.
pub fn route_instruction(ix_data: &[u8]) -> (r: Result<&[u8], ErrorCode>)
    requires
        ix_data@.len() >= 8,
    ensures
        ix_data@.take(8) == liquidate_dex_instr_id() ==> (r matches Ok(rest) && rest@
            == ix_data@.skip(8)),
        ix_data@.take(8) != liquidate_dex_instr_id() ==> r == Err::<&[u8], ErrorCode>(
            ErrorCode::UnknownInstruction,
        ),
{
    broadcast use vstd::array::group_array_axioms;

    let id = LIQUIDATE_DEX_INSTR_ID;
    assert(id@ =~= liquidate_dex_instr_id());
    let head = vstd::slice::slice_subrange(ix_data, 0, 8);
    assert(head@ =~= ix_data@.take(8));
    if crate::utils::bytes_equal(head, id.as_slice()) {
        let rest = vstd::slice::slice_subrange(ix_data, 8, ix_data.len());
        assert(rest@ =~= ix_data@.skip(8));
        Ok(rest)
    } else {
        Err(ErrorCode::UnknownInstruction)
    }
}

} // verus!
