use vstd::prelude::*;

verus! {

/// The analyses that a netlist can ask for. The numbers that go with a
/// sweep or a transient run are kept by the caller.
#[derive(Debug, Clone, Copy, PartialEq, Eq, Structural)]
pub enum Command {
    Op,
    DC,
    Tran,
}

} // verus!
