use vstd::prelude::*;
use vstd::string::*;

verus! {

/// The label of the ground node, which never receives a row.
pub const GND: &'static str = "0";

/// The ground label as a sequence of characters.
pub open spec fn gnd() -> Seq<char> {
    seq!['0']
}

/// Whether a label names the ground node.
pub fn is_gnd(name: &str) -> (r: bool)
    ensures
        r == (name@ == gnd()),
{
    if name.unicode_len() == 1 {
        let c: char = name.get_char(0);
        proof {
            if c == '0' {
                assert(name@ =~= gnd());
            }
        }
        c == '0'
    } else {
        false
    }
}

/// The class of an unknown in the solution vector: a node voltage or a
/// branch current.
#[derive(Debug, Clone, Copy, PartialEq, Eq, Structural)]
pub enum NodeType {
    Voltage,
    Current,
}

/// One unknown of the system: its class and its row in the solution vector.
#[derive(Debug, Clone, Copy, PartialEq, Eq, Structural)]
pub struct MNANode {
    pub ntype: NodeType,
    pub idx: usize,
}

} // verus!
