use crate::device::Device;
use crate::names::name_eq;
use crate::node::{gnd, is_gnd};
use crate::node_collection::is_terminal_of;
use vstd::prelude::*;

verus! {

/// Why a list of devices is no circuit.
#[derive(Debug, Clone, Copy, PartialEq, Eq, Structural)]
pub enum StructuralError {
    /// Two devices carry the same name.
    DuplicateName,
    /// No terminal is tied to the ground node.
    MissingGround,
}

impl StructuralError {
    /// The message that goes with the error.
    pub fn message(&self) -> (s: &'static str)
        ensures
            s@ == match *self {
                StructuralError::DuplicateName => "Duplicate elems found!"@,
                StructuralError::MissingGround => "GND node not found!"@,
            },
    {
        match self {
            StructuralError::DuplicateName => "Duplicate elems found!",
            StructuralError::MissingGround => "GND node not found!",
        }
    }
}

/// Two different devices of the list share a name.
pub open spec fn has_duplicate_names(elems: Seq<Device>) -> bool {
    exists|i: int, j: int| 0 <= i < j < elems.len() && elems[i].name@ == elems[j].name@
}

/// Some terminal of some device is tied to ground.
pub open spec fn has_gnd(elems: Seq<Device>) -> bool {
    exists|i: int, j: int| is_terminal_of(elems, i, j, gnd())
}

/// Accepts a list of devices whose names are all different.
pub fn check_duplicate_names(elems: &Vec<Device>) -> (r: Result<(), StructuralError>)
    ensures
        r.is_err() <==> has_duplicate_names(elems@),
        r.is_err() ==> r == Err::<(), StructuralError>(StructuralError::DuplicateName),
{
    let mut j: usize = 0;
    while j < elems.len()
        invariant
            j <= elems@.len(),
            forall|a: int, b: int| 0 <= a < b < j ==> elems@[a].name@ != elems@[b].name@,
        decreases elems@.len() - j,
    {
        let mut i: usize = 0;
        while i < j
            invariant
                i <= j < elems@.len(),
                forall|a: int| 0 <= a < i ==> elems@[a].name@ != elems@[j as int].name@,
            decreases j - i,
        {
            if name_eq(elems[i].name.as_str(), elems[j].name.as_str()) {
                return Err(StructuralError::DuplicateName);
            }
            i += 1;
        }
        j += 1;
    }
    Ok(())
}

/// Accepts a list of devices of which one at least is tied to ground.
pub fn check_gnd(elems: &Vec<Device>) -> (r: Result<(), StructuralError>)
    ensures
        r.is_ok() <==> has_gnd(elems@),
        r.is_err() ==> r == Err::<(), StructuralError>(StructuralError::MissingGround),
{
    let mut i: usize = 0;
    while i < elems.len()
        invariant
            i <= elems@.len(),
            forall|a: int, b: int| 0 <= a < i ==> !is_terminal_of(elems@, a, b, gnd()),
        decreases elems@.len() - i,
    {
        let nodes = &elems[i].nodes;
        let mut j: usize = 0;
        while j < nodes.len()
            invariant
                i < elems@.len(),
                j <= nodes@.len(),
                nodes@ == elems@[i as int].nodes@,
                forall|b: int| 0 <= b < j ==> !is_terminal_of(elems@, i as int, b, gnd()),
            decreases nodes@.len() - j,
        {
            if is_gnd(nodes[j].as_str()) {
                assert(is_terminal_of(elems@, i as int, j as int, gnd()));
                return Ok(());
            }
            j += 1;
        }
        i += 1;
    }
    Err(StructuralError::MissingGround)
}

/// Checks a list of devices before any analysis: first that no name occurs
/// twice, then that the circuit is grounded.
pub fn check_elems(elems: &Vec<Device>) -> (r: Result<(), StructuralError>)
    ensures
        r == if has_duplicate_names(elems@) {
            Err::<(), StructuralError>(StructuralError::DuplicateName)
        } else if !has_gnd(elems@) {
            Err::<(), StructuralError>(StructuralError::MissingGround)
        } else {
            Ok::<(), StructuralError>(())
        },
{
    if check_duplicate_names(elems).is_err() {
        Err(StructuralError::DuplicateName)
    } else if check_gnd(elems).is_err() {
        Err(StructuralError::MissingGround)
    } else {
        Ok(())
    }
}

} // verus!
