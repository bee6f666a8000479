//! RAM discovery: read the machine's memory geometry from the `memory@`
//! device-tree node.

use vstd::prelude::*;

use crate::fdt::{reg_spec, FDTError, FDTNode, LibFdt};

verus! {

/// The RAM range the node's `reg` property names: its start address and
/// its length in bytes, decoded exactly as `FDTNode::get_reg` decodes
/// them.
pub fn load_ram_specs(ram_node: &FDTNode, fdt: &LibFdt) -> (r: Result<(u64, u64), FDTError>)
    ensures
        r == reg_spec(ram_node, fdt),
{
    match ram_node.get_reg(fdt) {
        Ok((ram_start, ram_len)) => Ok((ram_start, ram_len)),
        Err(e) => Err(e),
    }
}

} // verus!
