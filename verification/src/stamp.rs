use crate::device::{Device, DeviceKind};
use crate::node::MNANode;
use crate::node_collection::NodeCollection;
use vstd::prelude::*;

verus! {

/// A quantity of a device model that a stamp adds to the system. What
/// number it stands for is decided by whoever evaluates the model; the stamp
/// only says where it goes and with which sign.
#[derive(Debug, Clone, Copy, PartialEq, Eq, Structural)]
pub enum Coeff {
    /// The constant 0.
    Zero,
    /// The constant 1.
    One,
    /// The device's primary value.
    Value,
    /// The reciprocal of the device's primary value.
    Conductance,
    /// Equivalent conductance of a companion model.
    Geq,
    /// Equivalent current of a companion model.
    Ieq,
    /// Transistor conductances and their combinations.
    Gcc,
    Gee,
    Gec,
    Gce,
    /// `gcc + gee - gce - gec`
    BaseSelf,
    /// `gec - gee`
    GecLessGee,
    /// `gce - gee`
    GceLessGee,
    /// `gce - gcc`
    GceLessGcc,
    /// `gec - gcc`
    GecLessGcc,
    /// Equivalent collector current.
    IcEq,
    /// Equivalent emitter current.
    IeEq,
    /// `ie_eq + ic_eq`
    BaseCurrent,
    /// Output conductance of a transistor channel.
    Gds,
    /// Transconductance.
    Gm,
    /// `gds + gm`
    GdsPlusGm,
}

/// One additive contribution to the system matrix.
#[derive(Debug, Clone, Copy, PartialEq, Eq, Structural)]
pub struct MatTerm {
    pub row: usize,
    pub col: usize,
    pub coeff: Coeff,
    pub negated: bool,
}

/// One additive contribution to the right-hand side.
#[derive(Debug, Clone, Copy, PartialEq, Eq, Structural)]
pub struct RhsTerm {
    pub row: usize,
    pub coeff: Coeff,
    pub negated: bool,
}

/// A right-hand-side entry that a stamp overwrites.
#[derive(Debug, Clone, Copy, PartialEq, Eq, Structural)]
pub struct RhsAssign {
    pub row: usize,
    pub coeff: Coeff,
}

/// What one device contributes to the system: the entry it overwrites, if
/// any, and then its additive terms in the order in which they are applied.
#[derive(Debug)]
pub struct Stamp {
    pub assign: Option<RhsAssign>,
    pub mat: Vec<MatTerm>,
    pub rhs: Vec<RhsTerm>,
}

/// The rows of a device's terminals and of its own branch current. A
/// grounded terminal has no row.
#[derive(Debug, Clone, Copy)]
pub struct Rows {
    pub t0: Option<usize>,
    pub t1: Option<usize>,
    pub t2: Option<usize>,
    pub own: Option<usize>,
}

/// The row of the unknown called `name`, if there is one.
pub open spec fn lookup(nodes: Map<Seq<char>, MNANode>, name: Seq<char>) -> Option<usize> {
    if nodes.dom().contains(name) {
        Some(nodes[name].idx)
    } else {
        None
    }
}

/// The rows of a device in a collection of unknowns.
pub open spec fn rows_of(dev: Device, nodes: Map<Seq<char>, MNANode>) -> Rows {
    Rows {
        t0: lookup(nodes, dev.terminal(0)),
        t1: lookup(nodes, dev.terminal(1)),
        t2: if dev.nodes@.len() > 2 {
            lookup(nodes, dev.terminal(2))
        } else {
            None
        },
        own: lookup(nodes, dev.name@),
    }
}

impl Rows {
    /// Looks up the rows of a device.
    pub fn of(dev: &Device, nodes: &NodeCollection) -> (r: Rows)
        requires
            dev.wf(),
            nodes.wf(),
        ensures
            r == rows_of(*dev, nodes@),
    {
        let t0 = nodes.get_idx(dev.nodes[0].as_str());
        let t1 = nodes.get_idx(dev.nodes[1].as_str());
        let t2 = if dev.nodes.len() > 2 {
            nodes.get_idx(dev.nodes[2].as_str())
        } else {
            None
        };
        let own = nodes.get_idx(dev.name.as_str());
        Rows { t0, t1, t2, own }
    }

    /// All rows lie below `n`.
    pub open spec fn below(self, n: nat) -> bool {
        &&& self.t0 matches Some(i) ==> i < n
        &&& self.t1 matches Some(i) ==> i < n
        &&& self.t2 matches Some(i) ==> i < n
        &&& self.own matches Some(i) ==> i < n
    }

    /// The same rows with the first and third terminal exchanged.
    pub open spec fn swapped(self) -> Rows {
        Rows { t0: self.t2, t1: self.t1, t2: self.t0, own: self.own }
    }
}

/// In a dense collection every row of a device lies below the number of
/// unknowns.
pub proof fn lemma_dense_rows(dev: Device, nodes: Map<Seq<char>, MNANode>)
    requires
        crate::node_collection::dense_map(nodes),
    ensures
        rows_of(dev, nodes).below(nodes.dom().len()),
{
}

/// The matrix term at (`row`, `col`), or nothing when either is grounded.
pub open spec fn mat_term(row: Option<usize>, col: Option<usize>, coeff: Coeff, negated: bool) -> Seq<
    MatTerm,
> {
    match (row, col) {
        (Some(r), Some(c)) => seq![MatTerm { row: r, col: c, coeff, negated }],
        _ => Seq::empty(),
    }
}

/// The right-hand-side term at `row`, or nothing when it is grounded.
pub open spec fn rhs_term(row: Option<usize>, coeff: Coeff, negated: bool) -> Seq<RhsTerm> {
    match row {
        Some(r) => seq![RhsTerm { row: r, coeff, negated }],
        None => Seq::empty(),
    }
}

fn push_mat(
    mat: &mut Vec<MatTerm>,
    row: Option<usize>,
    col: Option<usize>,
    coeff: Coeff,
    negated: bool,
)
    ensures
        final(mat)@ == old(mat)@ + mat_term(row, col, coeff, negated),
{
    let ghost before = mat@;
    match (row, col) {
        (Some(r), Some(c)) => {
            mat.push(MatTerm { row: r, col: c, coeff, negated });
            assert(mat@ =~= before + mat_term(row, col, coeff, negated));
        },
        _ => {
            assert(mat@ =~= before + mat_term(row, col, coeff, negated));
        },
    }
}

fn push_rhs(rhs: &mut Vec<RhsTerm>, row: Option<usize>, coeff: Coeff, negated: bool)
    ensures
        final(rhs)@ == old(rhs)@ + rhs_term(row, coeff, negated),
{
    let ghost before = rhs@;
    match row {
        Some(r) => {
            rhs.push(RhsTerm { row: r, coeff, negated });
            assert(rhs@ =~= before + rhs_term(row, coeff, negated));
        },
        None => {
            assert(rhs@ =~= before + rhs_term(row, coeff, negated));
        },
    }
}

/// Matrix terms of a conductance-like two-terminal element between `p` and
/// `n`: `g` on both diagonal entries, `-g` on both couplings.
pub open spec fn branch_mat(p: Option<usize>, n: Option<usize>, g: Coeff) -> Seq<MatTerm> {
    Seq::<MatTerm>::empty() + mat_term(p, p, g, false) + mat_term(n, n, g, false) + mat_term(
        p,
        n,
        g,
        true,
    ) + mat_term(n, p, g, true)
}

/// Right-hand-side terms of an equivalent current `i` that flows from `p`
/// to `n` inside the element.
pub open spec fn branch_rhs(p: Option<usize>, n: Option<usize>, i: Coeff) -> Seq<RhsTerm> {
    Seq::<RhsTerm>::empty() + rhs_term(p, i, true) + rhs_term(n, i, false)
}

/// Matrix terms that couple a branch current `own` to the voltages of `p`
/// and `n`.
pub open spec fn source_mat(own: Option<usize>, p: Option<usize>, n: Option<usize>) -> Seq<MatTerm> {
    Seq::<MatTerm>::empty() + mat_term(own, p, Coeff::One, false) + mat_term(
        p,
        own,
        Coeff::One,
        false,
    ) + mat_term(own, n, Coeff::One, true) + mat_term(n, own, Coeff::One, true)
}

fn push_branch_mat(mat: &mut Vec<MatTerm>, p: Option<usize>, n: Option<usize>, g: Coeff)
    ensures
        final(mat)@ == old(mat)@ + branch_mat(p, n, g),
{
    let ghost before = mat@;
    push_mat(mat, p, p, g, false);
    push_mat(mat, n, n, g, false);
    push_mat(mat, p, n, g, true);
    push_mat(mat, n, p, g, true);
    assert(mat@ =~= before + branch_mat(p, n, g));
}

fn push_branch_rhs(rhs: &mut Vec<RhsTerm>, p: Option<usize>, n: Option<usize>, i: Coeff)
    ensures
        final(rhs)@ == old(rhs)@ + branch_rhs(p, n, i),
{
    let ghost before = rhs@;
    push_rhs(rhs, p, i, true);
    push_rhs(rhs, n, i, false);
    assert(rhs@ =~= before + branch_rhs(p, n, i));
}

fn push_source_mat(mat: &mut Vec<MatTerm>, own: Option<usize>, p: Option<usize>, n: Option<usize>)
    ensures
        final(mat)@ == old(mat)@ + source_mat(own, p, n),
{
    let ghost before = mat@;
    push_mat(mat, own, p, Coeff::One, false);
    push_mat(mat, p, own, Coeff::One, false);
    push_mat(mat, own, n, Coeff::One, true);
    push_mat(mat, n, own, Coeff::One, true);
    assert(mat@ =~= before + source_mat(own, p, n));
}

/// The entry that the constant part of a device overwrites: a voltage
/// source puts its value into the row of its own current.
pub open spec fn linear_assign(kind: DeviceKind, r: Rows) -> Option<RhsAssign> {
    match (kind, r.own) {
        (DeviceKind::Vdd, Some(own)) => Some(RhsAssign { row: own, coeff: Coeff::Value }),
        _ => None,
    }
}

/// The matrix terms of the constant part of a device.
pub open spec fn linear_mat(kind: DeviceKind, r: Rows) -> Seq<MatTerm> {
    match kind {
        DeviceKind::Res => Seq::<MatTerm>::empty() + mat_term(
            r.t0,
            r.t0,
            Coeff::Conductance,
            false,
        ) + mat_term(r.t1, r.t1, Coeff::Conductance, false) + mat_term(
            r.t1,
            r.t0,
            Coeff::Conductance,
            true,
        ) + mat_term(r.t0, r.t1, Coeff::Conductance, true),
        DeviceKind::Vdd => Seq::<MatTerm>::empty() + source_mat(r.own, r.t1, r.t0),
        _ => Seq::empty(),
    }
}

/// The right-hand-side terms of the constant part of a device: a current
/// source feeds its second terminal and drains its first.
pub open spec fn linear_rhs(kind: DeviceKind, r: Rows) -> Seq<RhsTerm> {
    match kind {
        DeviceKind::Idd => Seq::<RhsTerm>::empty() + rhs_term(r.t1, Coeff::Value, false)
            + rhs_term(r.t0, Coeff::Value, true),
        _ => Seq::empty(),
    }
}

/// The entry that a device overwrites while the operating point is sought:
/// an inductor is a short, so the row of its current reads 0.
pub open spec fn startup_assign(kind: DeviceKind, r: Rows) -> Option<RhsAssign> {
    match (kind, r.own) {
        (DeviceKind::Ind, Some(own)) => Some(RhsAssign { row: own, coeff: Coeff::Zero }),
        _ => linear_assign(kind, r),
    }
}

/// The matrix terms of a device while the operating point is sought.
pub open spec fn startup_mat(kind: DeviceKind, r: Rows) -> Seq<MatTerm> {
    match kind {
        DeviceKind::Ind => Seq::<MatTerm>::empty() + source_mat(r.own, r.t0, r.t1),
        _ => linear_mat(kind, r),
    }
}

/// The matrix terms of the companion model of a capacitor or an inductor.
pub open spec fn dynamic_mat(kind: DeviceKind, r: Rows) -> Seq<MatTerm> {
    match kind {
        DeviceKind::Cap => Seq::<MatTerm>::empty() + mat_term(r.t1, r.t1, Coeff::Geq, false)
            + mat_term(r.t0, r.t0, Coeff::Geq, false) + mat_term(r.t0, r.t1, Coeff::Geq, true)
            + mat_term(r.t1, r.t0, Coeff::Geq, true),
        DeviceKind::Ind => Seq::<MatTerm>::empty() + mat_term(r.t0, r.t0, Coeff::Geq, false)
            + mat_term(r.t1, r.t1, Coeff::Geq, false) + mat_term(r.t1, r.t0, Coeff::Geq, true)
            + mat_term(r.t0, r.t1, Coeff::Geq, true),
        _ => Seq::empty(),
    }
}

/// The right-hand-side terms of the companion model of a capacitor or an
/// inductor.
pub open spec fn dynamic_rhs(kind: DeviceKind, r: Rows) -> Seq<RhsTerm> {
    match kind {
        DeviceKind::Cap => Seq::<RhsTerm>::empty() + branch_rhs(r.t1, r.t0, Coeff::Ieq),
        DeviceKind::Ind => Seq::<RhsTerm>::empty() + branch_rhs(r.t0, r.t1, Coeff::Ieq),
        _ => Seq::empty(),
    }
}

/// The rows that a nonlinear device is linearized on: a transistor whose
/// source lies above its drain is read with the two exchanged.
pub open spec fn effective_rows(kind: DeviceKind, r: Rows, reversed: bool) -> Rows {
    if kind == DeviceKind::NMOS && reversed {
        r.swapped()
    } else {
        r
    }
}

/// The matrix terms of the linearization of a nonlinear device.
pub open spec fn nonlinear_mat(kind: DeviceKind, r: Rows) -> Seq<MatTerm> {
    match kind {
        DeviceKind::Diode => Seq::<MatTerm>::empty() + branch_mat(r.t0, r.t1, Coeff::Geq),
        DeviceKind::NPN => Seq::<MatTerm>::empty() + mat_term(r.t0, r.t0, Coeff::Gcc, false)
            + mat_term(r.t1, r.t1, Coeff::BaseSelf, false) + mat_term(
            r.t2,
            r.t2,
            Coeff::Gee,
            false,
        ) + mat_term(r.t2, r.t0, Coeff::Gec, true) + mat_term(r.t0, r.t2, Coeff::Gce, true)
            + mat_term(r.t2, r.t1, Coeff::GecLessGee, false) + mat_term(
            r.t1,
            r.t2,
            Coeff::GceLessGee,
            false,
        ) + mat_term(r.t0, r.t1, Coeff::GceLessGcc, false) + mat_term(
            r.t1,
            r.t0,
            Coeff::GecLessGcc,
            false,
        ),
        DeviceKind::NMOS => Seq::<MatTerm>::empty() + mat_term(r.t0, r.t0, Coeff::Gds, false)
            + mat_term(r.t2, r.t2, Coeff::GdsPlusGm, false) + mat_term(
            r.t0,
            r.t2,
            Coeff::GdsPlusGm,
            true,
        ) + mat_term(r.t2, r.t0, Coeff::Gds, true) + mat_term(r.t0, r.t1, Coeff::Gm, false)
            + mat_term(r.t2, r.t1, Coeff::Gm, true),
        _ => Seq::empty(),
    }
}

/// The right-hand-side terms of the linearization of a nonlinear device.
pub open spec fn nonlinear_rhs(kind: DeviceKind, r: Rows) -> Seq<RhsTerm> {
    match kind {
        DeviceKind::Diode => Seq::<RhsTerm>::empty() + branch_rhs(r.t0, r.t1, Coeff::Ieq),
        DeviceKind::NPN => Seq::<RhsTerm>::empty() + rhs_term(r.t0, Coeff::IcEq, true) + rhs_term(
            r.t1,
            Coeff::BaseCurrent,
            false,
        ) + rhs_term(r.t2, Coeff::IeEq, true),
        DeviceKind::NMOS => Seq::<RhsTerm>::empty() + branch_rhs(r.t0, r.t2, Coeff::Ieq),
        _ => Seq::empty(),
    }
}

/// The same matrix terms with every sign turned round.
pub open spec fn negate_mat(ts: Seq<MatTerm>) -> Seq<MatTerm> {
    ts.map_values(
        |t: MatTerm| MatTerm { row: t.row, col: t.col, coeff: t.coeff, negated: !t.negated },
    )
}

/// The same right-hand-side terms with every sign turned round.
pub open spec fn negate_rhs(ts: Seq<RhsTerm>) -> Seq<RhsTerm> {
    ts.map_values(|t: RhsTerm| RhsTerm { row: t.row, coeff: t.coeff, negated: !t.negated })
}

/// Taking back an overwritten entry leaves 0 in it.
pub open spec fn clear_assign(a: Option<RhsAssign>) -> Option<RhsAssign> {
    match a {
        Some(x) => Some(RhsAssign { row: x.row, coeff: Coeff::Zero }),
        None => None,
    }
}

/// Every row and column that the terms touch lies below `n`.
pub open spec fn mat_within(ts: Seq<MatTerm>, n: nat) -> bool {
    forall|k: int| 0 <= k < ts.len() ==> (#[trigger] ts[k]).row < n && ts[k].col < n
}

/// Every row that the terms touch lies below `n`.
pub open spec fn rhs_within(ts: Seq<RhsTerm>, n: nat) -> bool {
    forall|k: int| 0 <= k < ts.len() ==> (#[trigger] ts[k]).row < n
}

impl Stamp {
    /// Every row and column that the stamp touches lies below `n`.
    pub open spec fn within(&self, n: nat) -> bool {
        &&& self.assign matches Some(a) ==> a.row < n
        &&& mat_within(self.mat@, n)
        &&& rhs_within(self.rhs@, n)
    }

    /// A stamp either overwrites an entry of the right-hand side or adds to
    /// the right-hand side, never both.
    pub open spec fn wf(&self) -> bool {
        self.assign.is_some() ==> self.rhs@.len() == 0
    }

    /// The stamp that takes this one back: every additive term with the
    /// opposite sign, in the same order, and 0 in the overwritten entry.
    pub fn undo(&self) -> (u: Stamp)
        ensures
            u.assign == clear_assign(self.assign),
            u.mat@ == negate_mat(self.mat@),
            u.rhs@ == negate_rhs(self.rhs@),
            self.wf() ==> u.wf(),
            forall|n: nat| self.within(n) ==> #[trigger] u.within(n),
    {
        let assign = match self.assign {
            Some(a) => Some(RhsAssign { row: a.row, coeff: Coeff::Zero }),
            None => None,
        };
        let mut mat: Vec<MatTerm> = Vec::new();
        let mut i: usize = 0;
        while i < self.mat.len()
            invariant
                i <= self.mat@.len(),
                mat@ == negate_mat(self.mat@.take(i as int)),
            decreases self.mat@.len() - i,
        {
            let t = self.mat[i];
            mat.push(MatTerm { row: t.row, col: t.col, coeff: t.coeff, negated: !t.negated });
            assert(mat@ =~= negate_mat(self.mat@.take(i + 1)));
            i += 1;
        }
        assert(self.mat@.take(i as int) =~= self.mat@);
        let mut rhs: Vec<RhsTerm> = Vec::new();
        let mut j: usize = 0;
        while j < self.rhs.len()
            invariant
                j <= self.rhs@.len(),
                rhs@ == negate_rhs(self.rhs@.take(j as int)),
            decreases self.rhs@.len() - j,
        {
            let t = self.rhs[j];
            rhs.push(RhsTerm { row: t.row, coeff: t.coeff, negated: !t.negated });
            assert(rhs@ =~= negate_rhs(self.rhs@.take(j + 1)));
            j += 1;
        }
        assert(self.rhs@.take(j as int) =~= self.rhs@);
        Stamp { assign, mat, rhs }
    }
}

/// The constant contribution of a device in normal operation.
pub fn linear_stamp(dev: &Device, nodes: &NodeCollection) -> (s: Stamp)
    requires
        dev.wf(),
        nodes.wf(),
        dev.kind == DeviceKind::Vdd ==> nodes@.dom().contains(dev.name@),
    ensures
        s.assign == linear_assign(dev.kind, rows_of(*dev, nodes@)),
        s.mat@ == linear_mat(dev.kind, rows_of(*dev, nodes@)),
        s.rhs@ == linear_rhs(dev.kind, rows_of(*dev, nodes@)),
        s.wf(),
        forall|n: nat| rows_of(*dev, nodes@).below(n) ==> #[trigger] s.within(n),
{
    let r = Rows::of(dev, nodes);
    let mut assign: Option<RhsAssign> = None;
    let mut mat: Vec<MatTerm> = Vec::new();
    let mut rhs: Vec<RhsTerm> = Vec::new();
    match dev.kind {
        DeviceKind::Res => {
            push_mat(&mut mat, r.t0, r.t0, Coeff::Conductance, false);
            push_mat(&mut mat, r.t1, r.t1, Coeff::Conductance, false);
            push_mat(&mut mat, r.t1, r.t0, Coeff::Conductance, true);
            push_mat(&mut mat, r.t0, r.t1, Coeff::Conductance, true);
        },
        DeviceKind::Vdd => {
            if let Some(own) = r.own {
                assign = Some(RhsAssign { row: own, coeff: Coeff::Value });
            }
            push_source_mat(&mut mat, r.own, r.t1, r.t0);
        },
        DeviceKind::Idd => {
            push_rhs(&mut rhs, r.t1, Coeff::Value, false);
            push_rhs(&mut rhs, r.t0, Coeff::Value, true);
        },
        _ => {},
    }
    Stamp { assign, mat, rhs }
}

/// What takes the constant contribution of a device back.
pub fn undo_linear_stamp(dev: &Device, nodes: &NodeCollection) -> (s: Stamp)
    requires
        dev.wf(),
        nodes.wf(),
        dev.kind == DeviceKind::Vdd ==> nodes@.dom().contains(dev.name@),
    ensures
        s.assign == clear_assign(linear_assign(dev.kind, rows_of(*dev, nodes@))),
        s.mat@ == negate_mat(linear_mat(dev.kind, rows_of(*dev, nodes@))),
        s.rhs@ == negate_rhs(linear_rhs(dev.kind, rows_of(*dev, nodes@))),
        s.wf(),
        forall|n: nat| rows_of(*dev, nodes@).below(n) ==> #[trigger] s.within(n),
{
    linear_stamp(dev, nodes).undo()
}

/// The constant contribution of a device while the operating point is
/// sought: an inductor is stamped as a short, every other device as in
/// normal operation.
pub fn linear_startup_stamp(dev: &Device, nodes: &NodeCollection) -> (s: Stamp)
    requires
        dev.wf(),
        nodes.wf(),
        dev.kind == DeviceKind::Vdd || dev.kind == DeviceKind::Ind ==> nodes@.dom().contains(
            dev.name@,
        ),
    ensures
        s.assign == startup_assign(dev.kind, rows_of(*dev, nodes@)),
        s.mat@ == startup_mat(dev.kind, rows_of(*dev, nodes@)),
        s.rhs@ == linear_rhs(dev.kind, rows_of(*dev, nodes@)),
        s.wf(),
        forall|n: nat| rows_of(*dev, nodes@).below(n) ==> #[trigger] s.within(n),
{
    match dev.kind {
        DeviceKind::Ind => {
            let r = Rows::of(dev, nodes);
            let mut assign: Option<RhsAssign> = None;
            if let Some(own) = r.own {
                assign = Some(RhsAssign { row: own, coeff: Coeff::Zero });
            }
            let mut mat: Vec<MatTerm> = Vec::new();
            push_source_mat(&mut mat, r.own, r.t0, r.t1);
            Stamp { assign, mat, rhs: Vec::new() }
        },
        _ => linear_stamp(dev, nodes),
    }
}

/// What takes the startup contribution of a device back.
pub fn undo_linear_startup_stamp(dev: &Device, nodes: &NodeCollection) -> (s: Stamp)
    requires
        dev.wf(),
        nodes.wf(),
        dev.kind == DeviceKind::Vdd || dev.kind == DeviceKind::Ind ==> nodes@.dom().contains(
            dev.name@,
        ),
    ensures
        s.assign == clear_assign(startup_assign(dev.kind, rows_of(*dev, nodes@))),
        s.mat@ == negate_mat(startup_mat(dev.kind, rows_of(*dev, nodes@))),
        s.rhs@ == negate_rhs(linear_rhs(dev.kind, rows_of(*dev, nodes@))),
        s.wf(),
        forall|n: nat| rows_of(*dev, nodes@).below(n) ==> #[trigger] s.within(n),
{
    linear_startup_stamp(dev, nodes).undo()
}

/// The companion model of a capacitor or an inductor for one time step;
/// nothing for any other device.
pub fn dynamic_stamp(dev: &Device, nodes: &NodeCollection) -> (s: Stamp)
    requires
        dev.wf(),
        nodes.wf(),
    ensures
        s.assign.is_none(),
        s.mat@ == dynamic_mat(dev.kind, rows_of(*dev, nodes@)),
        s.rhs@ == dynamic_rhs(dev.kind, rows_of(*dev, nodes@)),
        s.wf(),
        forall|n: nat| rows_of(*dev, nodes@).below(n) ==> #[trigger] s.within(n),
{
    let r = Rows::of(dev, nodes);
    let mut mat: Vec<MatTerm> = Vec::new();
    let mut rhs: Vec<RhsTerm> = Vec::new();
    match dev.kind {
        DeviceKind::Cap => {
            push_mat(&mut mat, r.t1, r.t1, Coeff::Geq, false);
            push_mat(&mut mat, r.t0, r.t0, Coeff::Geq, false);
            push_mat(&mut mat, r.t0, r.t1, Coeff::Geq, true);
            push_mat(&mut mat, r.t1, r.t0, Coeff::Geq, true);
            push_branch_rhs(&mut rhs, r.t1, r.t0, Coeff::Ieq);
        },
        DeviceKind::Ind => {
            push_mat(&mut mat, r.t0, r.t0, Coeff::Geq, false);
            push_mat(&mut mat, r.t1, r.t1, Coeff::Geq, false);
            push_mat(&mut mat, r.t1, r.t0, Coeff::Geq, true);
            push_mat(&mut mat, r.t0, r.t1, Coeff::Geq, true);
            push_branch_rhs(&mut rhs, r.t0, r.t1, Coeff::Ieq);
        },
        _ => {},
    }
    Stamp { assign: None, mat, rhs }
}

/// What takes the companion model of a device back.
pub fn undo_dynamic_stamp(dev: &Device, nodes: &NodeCollection) -> (s: Stamp)
    requires
        dev.wf(),
        nodes.wf(),
    ensures
        s.assign.is_none(),
        s.mat@ == negate_mat(dynamic_mat(dev.kind, rows_of(*dev, nodes@))),
        s.rhs@ == negate_rhs(dynamic_rhs(dev.kind, rows_of(*dev, nodes@))),
        s.wf(),
        forall|n: nat| rows_of(*dev, nodes@).below(n) ==> #[trigger] s.within(n),
{
    dynamic_stamp(dev, nodes).undo()
}

/// The linearization of a nonlinear device at the present iterate; nothing
/// for a linear device. `reversed` tells that the third terminal lies at a
/// higher potential than the first, which exchanges drain and source of a
/// transistor.
pub fn nonlinear_stamp(dev: &Device, nodes: &NodeCollection, reversed: bool) -> (s: Stamp)
    requires
        dev.wf(),
        nodes.wf(),
    ensures
        s.assign.is_none(),
        s.mat@ == nonlinear_mat(
            dev.kind,
            effective_rows(dev.kind, rows_of(*dev, nodes@), reversed),
        ),
        s.rhs@ == nonlinear_rhs(
            dev.kind,
            effective_rows(dev.kind, rows_of(*dev, nodes@), reversed),
        ),
        s.wf(),
        forall|n: nat| rows_of(*dev, nodes@).below(n) ==> #[trigger] s.within(n),
{
    let r = Rows::of(dev, nodes);
    let mut mat: Vec<MatTerm> = Vec::new();
    let mut rhs: Vec<RhsTerm> = Vec::new();
    match dev.kind {
        DeviceKind::Diode => {
            push_branch_mat(&mut mat, r.t0, r.t1, Coeff::Geq);
            push_branch_rhs(&mut rhs, r.t0, r.t1, Coeff::Ieq);
        },
        DeviceKind::NPN => {
            push_mat(&mut mat, r.t0, r.t0, Coeff::Gcc, false);
            push_mat(&mut mat, r.t1, r.t1, Coeff::BaseSelf, false);
            push_mat(&mut mat, r.t2, r.t2, Coeff::Gee, false);
            push_mat(&mut mat, r.t2, r.t0, Coeff::Gec, true);
            push_mat(&mut mat, r.t0, r.t2, Coeff::Gce, true);
            push_mat(&mut mat, r.t2, r.t1, Coeff::GecLessGee, false);
            push_mat(&mut mat, r.t1, r.t2, Coeff::GceLessGee, false);
            push_mat(&mut mat, r.t0, r.t1, Coeff::GceLessGcc, false);
            push_mat(&mut mat, r.t1, r.t0, Coeff::GecLessGcc, false);
            push_rhs(&mut rhs, r.t0, Coeff::IcEq, true);
            push_rhs(&mut rhs, r.t1, Coeff::BaseCurrent, false);
            push_rhs(&mut rhs, r.t2, Coeff::IeEq, true);
        },
        DeviceKind::NMOS => {
            let (d, s) = if reversed {
                (r.t2, r.t0)
            } else {
                (r.t0, r.t2)
            };
            push_mat(&mut mat, d, d, Coeff::Gds, false);
            push_mat(&mut mat, s, s, Coeff::GdsPlusGm, false);
            push_mat(&mut mat, d, s, Coeff::GdsPlusGm, true);
            push_mat(&mut mat, s, d, Coeff::Gds, true);
            push_mat(&mut mat, d, r.t1, Coeff::Gm, false);
            push_mat(&mut mat, s, r.t1, Coeff::Gm, true);
            push_branch_rhs(&mut rhs, d, s, Coeff::Ieq);
        },
        _ => {},
    }
    Stamp { assign: None, mat, rhs }
}

/// What a matrix term adds to the entry (`r`, `c`) when the quantities have
/// the values `v`.
pub open spec fn mat_share(t: MatTerm, v: spec_fn(Coeff) -> int, r: int, c: int) -> int {
    if t.row == r && t.col == c {
        if t.negated {
            -v(t.coeff)
        } else {
            v(t.coeff)
        }
    } else {
        0
    }
}

/// What a sequence of matrix terms adds to the entry (`r`, `c`) in all.
pub open spec fn mat_sum(ts: Seq<MatTerm>, v: spec_fn(Coeff) -> int, r: int, c: int) -> int
    decreases ts.len(),
{
    if ts.len() == 0 {
        0
    } else {
        mat_sum(ts.drop_last(), v, r, c) + mat_share(ts.last(), v, r, c)
    }
}

/// What a right-hand-side term adds to row `r`.
pub open spec fn rhs_share(t: RhsTerm, v: spec_fn(Coeff) -> int, r: int) -> int {
    if t.row == r {
        if t.negated {
            -v(t.coeff)
        } else {
            v(t.coeff)
        }
    } else {
        0
    }
}

/// What a sequence of right-hand-side terms adds to row `r` in all.
pub open spec fn rhs_sum(ts: Seq<RhsTerm>, v: spec_fn(Coeff) -> int, r: int) -> int
    decreases ts.len(),
{
    if ts.len() == 0 {
        0
    } else {
        rhs_sum(ts.drop_last(), v, r) + rhs_share(ts.last(), v, r)
    }
}

proof fn lemma_mat_sum_negate(a: Seq<MatTerm>, v: spec_fn(Coeff) -> int, r: int, c: int)
    ensures
        mat_sum(negate_mat(a), v, r, c) == -mat_sum(a, v, r, c),
    decreases a.len(),
{
    if a.len() > 0 {
        assert(negate_mat(a).drop_last() =~= negate_mat(a.drop_last()));
        lemma_mat_sum_negate(a.drop_last(), v, r, c);
    }
}

proof fn lemma_rhs_sum_negate(a: Seq<RhsTerm>, v: spec_fn(Coeff) -> int, r: int)
    ensures
        rhs_sum(negate_rhs(a), v, r) == -rhs_sum(a, v, r),
    decreases a.len(),
{
    if a.len() > 0 {
        assert(negate_rhs(a).drop_last() =~= negate_rhs(a.drop_last()));
        lemma_rhs_sum_negate(a.drop_last(), v, r);
    }
}

/// The matrix after the terms `ts` were added to `a`, in exact arithmetic
/// and with the values `v` for the quantities.
pub open spec fn stamped_mat(a: Seq<Seq<int>>, ts: Seq<MatTerm>, v: spec_fn(Coeff) -> int) -> Seq<
    Seq<int>,
> {
    Seq::new(a.len(), |r: int| Seq::new(a[r].len(), |c: int| a[r][c] + mat_sum(ts, v, r, c)))
}

/// The right-hand side after a stamp was applied to `b`: the overwritten
/// entry first, then the additive terms.
pub open spec fn stamped_rhs(
    b: Seq<int>,
    assign: Option<RhsAssign>,
    ts: Seq<RhsTerm>,
    v: spec_fn(Coeff) -> int,
) -> Seq<int> {
    Seq::new(
        b.len(),
        |r: int|
            (if assign.is_some() && assign.unwrap().row == r {
                v(assign.unwrap().coeff)
            } else {
                b[r]
            }) + rhs_sum(ts, v, r),
    )
}

/// A stamp followed by its undo leaves the matrix and the right-hand side
/// as they were, whatever values the quantities have, as long as they have
/// the same values both times and the sums are exact. Where the stamp
/// overwrites an entry of the right-hand side, this holds for a
/// right-hand side that reads 0 there, and the stamp adds nothing to the
/// right-hand side besides.
pub proof fn lemma_stamp_then_undo(
    a: Seq<Seq<int>>,
    b: Seq<int>,
    assign: Option<RhsAssign>,
    mat: Seq<MatTerm>,
    rhs: Seq<RhsTerm>,
    v: spec_fn(Coeff) -> int,
)
    requires
        v(Coeff::Zero) == 0,
        assign.is_some() ==> rhs.len() == 0,
        assign.is_some() && assign.unwrap().row < b.len() ==> b[assign.unwrap().row as int] == 0,
    ensures
        stamped_mat(stamped_mat(a, mat, v), negate_mat(mat), v) == a,
        stamped_rhs(stamped_rhs(b, assign, rhs, v), clear_assign(assign), negate_rhs(rhs), v) == b,
{
    let a1 = stamped_mat(a, mat, v);
    let a2 = stamped_mat(a1, negate_mat(mat), v);
    assert forall|r: int, c: int| 0 <= r < a.len() && 0 <= c < a[r].len() implies a2[r][c]
        == a[r][c] by {
        lemma_mat_sum_negate(mat, v, r, c);
    }
    assert forall|r: int| 0 <= r < a.len() implies #[trigger] a2[r] == a[r] by {
        assert(a2[r] =~= a[r]);
    }
    assert(a2 =~= a);
    let b1 = stamped_rhs(b, assign, rhs, v);
    let b2 = stamped_rhs(b1, clear_assign(assign), negate_rhs(rhs), v);
    assert forall|r: int| 0 <= r < b.len() implies b2[r] == b[r] by {
        lemma_rhs_sum_negate(rhs, v, r);
        if assign.is_some() {
            assert(negate_rhs(rhs) =~= rhs);
        }
    }
    assert(b2 =~= b);
}

} // verus!
