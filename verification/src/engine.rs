use crate::command::Command;
use crate::device::Device;
use crate::names::name_eq;
use vstd::prelude::*;

pub mod error;
pub mod mna;
pub mod newtons_method;
pub mod sim_result;
pub mod transient;

verus! {

/// `r` is the place of the first command of kind `c`, or nothing when the
/// list holds none.
pub open spec fn is_first(cmds: Seq<Command>, c: Command, r: Option<usize>) -> bool {
    match r {
        Some(i) => i < cmds.len() && cmds[i as int] == c && forall|j: int|
            0 <= j < i ==> cmds[j] != c,
        None => forall|j: int| 0 <= j < cmds.len() ==> cmds[j] != c,
    }
}

/// `r` is the place of the first device called `name`, or nothing when no
/// device has that name.
pub open spec fn is_first_named(elems: Seq<Device>, name: Seq<char>, r: Option<usize>) -> bool {
    match r {
        Some(i) => i < elems.len() && elems[i as int].name@ == name && forall|j: int|
            0 <= j < i ==> elems[j].name@ != name,
        None => forall|j: int| 0 <= j < elems.len() ==> elems[j].name@ != name,
    }
}

/// The number of nonlinear functions that the devices register in all.
pub open spec fn total_nonlinear(elems: Seq<Device>) -> nat
    decreases elems.len(),
{
    if elems.len() == 0 {
        0
    } else {
        total_nonlinear(elems.drop_last()) + elems.last().kind.nonlinear_count()
    }
}

/// One analysis with the place of its command, or nothing where no
/// command asks for it.
pub open spec fn agenda_item(c: Command, place: Option<usize>) -> Seq<(Command, usize)> {
    match place {
        Some(i) => seq![(c, i)],
        None => Seq::empty(),
    }
}

/// The analyses in the order in which they are run.
pub open spec fn agenda_of(op: Option<usize>, dc: Option<usize>, tran: Option<usize>) -> Seq<
    (Command, usize),
> {
    agenda_item(Command::Op, op) + agenda_item(Command::DC, dc) + agenda_item(Command::Tran, tran)
}

fn first_command(cmds: &Vec<Command>, c: Command) -> (r: Option<usize>)
    ensures
        is_first(cmds@, c, r),
{
    let mut i: usize = 0;
    while i < cmds.len()
        invariant
            i <= cmds@.len(),
            forall|j: int| 0 <= j < i ==> cmds@[j] != c,
        decreases cmds@.len() - i,
    {
        if cmds[i] == c {
            return Some(i);
        }
        i += 1;
    }
    None
}

/// The driver of the analyses: the devices of the circuit and, for each
/// kind of analysis, the place in the command list of the command that
/// asks for it.
#[derive(Debug)]
pub struct Engine {
    pub elems: Vec<Device>,
    pub op_cmd: Option<usize>,
    pub dc_cmd: Option<usize>,
    pub tran_cmd: Option<usize>,
    pub num_nonlinear_funcs: usize,
}

impl Engine {
    /// Takes over the devices and picks, for each kind of analysis, the
    /// first command of that kind; later ones of the same kind are not
    /// run.
    pub fn new(elems: Vec<Device>, cmds: &Vec<Command>) -> (e: Engine)
        requires
            elems@.len() <= usize::MAX / 8,
        ensures
            e.elems == elems,
            is_first(cmds@, Command::Op, e.op_cmd),
            is_first(cmds@, Command::DC, e.dc_cmd),
            is_first(cmds@, Command::Tran, e.tran_cmd),
            e.num_nonlinear_funcs == total_nonlinear(elems@),
    {
        let op_cmd = first_command(cmds, Command::Op);
        let dc_cmd = first_command(cmds, Command::DC);
        let tran_cmd = first_command(cmds, Command::Tran);
        let mut num: usize = 0;
        let mut i: usize = 0;
        while i < elems.len()
            invariant
                i <= elems@.len(),
                elems@.len() <= usize::MAX / 8,
                num == total_nonlinear(elems@.take(i as int)),
                num <= 3 * i,
            decreases elems@.len() - i,
        {
            proof {
                assert(elems@.take(i + 1).drop_last() =~= elems@.take(i as int));
            }
            num = num + elems[i].count_nonlinear_funcs();
            i += 1;
        }
        proof {
            assert(elems@.take(i as int) =~= elems@);
        }
        Engine { elems, op_cmd, dc_cmd, tran_cmd, num_nonlinear_funcs: num }
    }

    /// The analyses to run, in the order in which they are run: the
    /// operating point first, then the sweep, then the transient run, each
    /// only if a command asks for it, and each with the place of its
    /// command.
    pub fn agenda(&self) -> (r: Vec<(Command, usize)>)
        ensures
            r@ == agenda_of(self.op_cmd, self.dc_cmd, self.tran_cmd),
    {
        let mut r: Vec<(Command, usize)> = Vec::new();
        if let Some(i) = self.op_cmd {
            r.push((Command::Op, i));
        }
        if let Some(i) = self.dc_cmd {
            r.push((Command::DC, i));
        }
        if let Some(i) = self.tran_cmd {
            r.push((Command::Tran, i));
        }
        assert(r@ =~= agenda_of(self.op_cmd, self.dc_cmd, self.tran_cmd));
        r
    }

    /// The place of the source that a sweep names, or nothing when the
    /// circuit has no device of that name.
    pub fn sweep_source(&self, name: &str) -> (r: Option<usize>)
        ensures
            is_first_named(self.elems@, name@, r),
    {
        let mut i: usize = 0;
        while i < self.elems.len()
            invariant
                i <= self.elems@.len(),
                forall|j: int| 0 <= j < i ==> self.elems@[j].name@ != name@,
            decreases self.elems@.len() - i,
        {
            if name_eq(self.elems[i].name.as_str(), name) {
                return Some(i);
            }
            i += 1;
        }
        None
    }
}

} // verus!
