use crate::device::Device;
use crate::engine::total_nonlinear;
use crate::node_collection::NodeCollection;
use crate::nonlinear_func::{has_shape, load, registered_funcs, registered_signs, NonlinearFunc};
use crate::sign_matrix::{shape_size, zeros, SignMatrix};
use crate::stamp::rows_of;
use crate::node::MNANode;
use vstd::prelude::*;

verus! {

/// The nonlinear part of the system: the sign matrix, with one row per
/// unknown and one column per registered function, and the functions.
#[derive(Debug)]
pub struct MNA {
    pub h: SignMatrix,
    pub g: Vec<NonlinearFunc>,
}

/// The functions that the devices register, in the order of the devices.
pub open spec fn funcs_after(elems: Seq<Device>, nodes: Map<Seq<char>, MNANode>) -> Seq<
    NonlinearFunc,
>
    decreases elems.len(),
{
    if elems.len() == 0 {
        Seq::empty()
    } else {
        funcs_after(elems.drop_last(), nodes) + registered_funcs(
            elems.last().kind,
            rows_of(elems.last(), nodes),
        )
    }
}

/// The sign matrix after the devices registered their functions one after
/// the other, each from the first free column on.
pub open spec fn signs_after(
    elems: Seq<Device>,
    nodes: Map<Seq<char>, MNANode>,
    start: Seq<Seq<i8>>,
) -> Seq<Seq<i8>>
    decreases elems.len(),
{
    if elems.len() == 0 {
        start
    } else {
        registered_signs(
            elems.last().kind,
            signs_after(elems.drop_last(), nodes, start),
            rows_of(elems.last(), nodes),
            total_nonlinear(elems.drop_last()) as int,
        )
    }
}

impl MNA {
    /// An empty system for `num_nodes` unknowns and `num_nonlinear_funcs`
    /// functions: all signs 0, no function registered.
    pub fn new(num_nodes: usize, num_nonlinear_funcs: usize) -> (m: MNA)
        requires
            shape_size(num_nodes as nat, num_nonlinear_funcs as nat) <= isize::MAX,
        ensures
            m.h@ == zeros(num_nodes as nat, num_nonlinear_funcs as nat),
            m.h.cols() == num_nonlinear_funcs,
            m.g@.len() == 0,
    {
        MNA { h: SignMatrix::new(num_nodes, num_nonlinear_funcs), g: Vec::new() }
    }

    /// Builds the nonlinear part of the system of a circuit: every device
    /// registers its functions once, in the order of the devices. Only the
    /// devices that register a function need rows below `num_nodes`.
    pub fn assemble(elems: &Vec<Device>, nodes: &NodeCollection, num_nodes: usize) -> (m: MNA)
        requires
            nodes.wf(),
            elems@.len() <= usize::MAX / 8,
            forall|i: int|
                0 <= i < elems@.len() && (#[trigger] elems@[i]).kind.nonlinear_count() > 0
                    ==> elems@[i].wf() && rows_of(elems@[i], nodes@).below(num_nodes as nat),
            shape_size(num_nodes as nat, total_nonlinear(elems@)) <= isize::MAX,
        ensures
            m.g@ == funcs_after(elems@, nodes@),
            m.g@.len() == total_nonlinear(elems@),
            m.h.cols() == total_nonlinear(elems@),
            m.h@ == signs_after(
                elems@,
                nodes@,
                zeros(num_nodes as nat, total_nonlinear(elems@)),
            ),
    {
        let mut total: usize = 0;
        let mut i: usize = 0;
        while i < elems.len()
            invariant
                i <= elems@.len(),
                elems@.len() <= usize::MAX / 8,
                total == total_nonlinear(elems@.take(i as int)),
                total <= 3 * i,
            decreases elems@.len() - i,
        {
            proof {
                assert(elems@.take(i + 1).drop_last() =~= elems@.take(i as int));
            }
            total = total + elems[i].count_nonlinear_funcs();
            i += 1;
        }
        proof {
            assert(elems@.take(i as int) =~= elems@);
        }
        let mut m = MNA::new(num_nodes, total);
        let ghost start = m.h@;
        proof {
            assert(zeros(num_nodes as nat, total as nat).len() == num_nodes);
        }
        let mut k: usize = 0;
        while k < elems.len()
            invariant
                k <= elems@.len(),
                nodes.wf(),
                total == total_nonlinear(elems@),
                start == zeros(num_nodes as nat, total as nat),
                forall|i: int|
                    0 <= i < elems@.len() && (#[trigger] elems@[i]).kind.nonlinear_count() > 0
                        ==> elems@[i].wf() && rows_of(elems@[i], nodes@).below(num_nodes as nat),
                m.h@.len() == num_nodes,
                m.h.cols() == total,
                has_shape(m.h@, num_nodes as nat, total as nat),
                m.g@ == funcs_after(elems@.take(k as int), nodes@),
                m.g@.len() == total_nonlinear(elems@.take(k as int)),
                m.h@ == signs_after(elems@.take(k as int), nodes@, start),
            decreases elems@.len() - k,
        {
            proof {
                assert(elems@.take(k + 1).drop_last() =~= elems@.take(k as int));
                assert(elems@.take(k + 1).last() == elems@[k as int]);
                lemma_total_monotone(elems@, k + 1);
            }
            load(&elems[k], nodes, &mut m.h, &mut m.g);
            k += 1;
        }
        proof {
            assert(elems@.take(k as int) =~= elems@);
        }
        m
    }
}

/// The functions of the first `k` devices are among those of all.
proof fn lemma_total_monotone(elems: Seq<Device>, k: int)
    requires
        0 <= k <= elems.len(),
    ensures
        total_nonlinear(elems.take(k)) <= total_nonlinear(elems),
    decreases elems.len() - k,
{
    if k < elems.len() {
        assert(elems.take(k + 1).drop_last() =~= elems.take(k));
        lemma_total_monotone(elems, k + 1);
    } else {
        assert(elems.take(k) =~= elems);
    }
}

} // verus!
