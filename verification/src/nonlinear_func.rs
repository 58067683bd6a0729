use crate::device::{Device, DeviceKind};
use crate::node_collection::NodeCollection;
use crate::sign_matrix::SignMatrix;
use crate::stamp::{rows_of, Rows};
use vstd::prelude::*;

verus! {

/// Which terminal current of which device model a registered function
/// computes.
#[derive(Debug, Clone, Copy, PartialEq, Eq, Structural)]
pub enum Current {
    DiodeI,
    NpnIc,
    NpnIb,
    NpnIe,
    NmosId,
    NmosIg,
    NmosIs,
}

/// A registered nonlinear function of the unknowns: the current it
/// computes and the rows whose voltages it reads. It holds rows only,
/// never the device.
#[derive(Debug, Clone, Copy)]
pub struct NonlinearFunc {
    pub current: Current,
    pub rows: Rows,
}

/// Number of nonlinear functions that a device registers.
pub fn count(elem: &Device) -> (n: usize)
    ensures
        n == elem.kind.nonlinear_count(),
{
    match elem.kind {
        DeviceKind::Vdd => 0,
        DeviceKind::Idd => 0,
        DeviceKind::Res => 0,
        DeviceKind::Cap => 0,
        DeviceKind::Ind => 0,
        DeviceKind::Diode => 1,
        DeviceKind::NPN => 3,
        DeviceKind::NMOS => 3,
    }
}

/// A matrix with `rows` rows of at least `cols` entries each.
pub open spec fn has_shape(m: Seq<Seq<i8>>, rows: nat, cols: nat) -> bool {
    m.len() == rows && forall|i: int| 0 <= i < m.len() ==> (#[trigger] m[i]).len() >= cols
}

/// The matrix with `v` written at (`row`, `col`); unchanged for a grounded
/// row.
pub open spec fn mark(m: Seq<Seq<i8>>, row: Option<usize>, col: int, v: i8) -> Seq<Seq<i8>> {
    match row {
        Some(i) => m.update(i as int, m[i as int].update(col, v)),
        None => m,
    }
}

/// The sign matrix after a device with the rows `r` registered its
/// functions from column `k` on: a diode writes +1 at its first terminal
/// and then -1 at its second, both in column `k`; a transistor writes +1 at
/// each terminal, in a column of its own.
pub open spec fn registered_signs(kind: DeviceKind, m: Seq<Seq<i8>>, r: Rows, k: int) -> Seq<
    Seq<i8>,
> {
    match kind {
        DeviceKind::Diode => mark(mark(m, r.t0, k, 1i8), r.t1, k, -1i8),
        DeviceKind::NPN | DeviceKind::NMOS => mark(
            mark(mark(m, r.t0, k, 1), r.t1, k + 1, 1),
            r.t2,
            k + 2,
            1,
        ),
        _ => m,
    }
}

/// The functions that a device with the rows `r` registers, in order.
pub open spec fn registered_funcs(kind: DeviceKind, r: Rows) -> Seq<NonlinearFunc> {
    match kind {
        DeviceKind::Diode => seq![NonlinearFunc { current: Current::DiodeI, rows: r }],
        DeviceKind::NPN => seq![
            NonlinearFunc { current: Current::NpnIc, rows: r },
            NonlinearFunc { current: Current::NpnIb, rows: r },
            NonlinearFunc { current: Current::NpnIe, rows: r },
        ],
        DeviceKind::NMOS => seq![
            NonlinearFunc { current: Current::NmosId, rows: r },
            NonlinearFunc { current: Current::NmosIg, rows: r },
            NonlinearFunc { current: Current::NmosIs, rows: r },
        ],
        _ => Seq::empty(),
    }
}

/// A device registers as many functions as its kind counts.
pub proof fn lemma_registered_count(kind: DeviceKind, r: Rows)
    ensures
        registered_funcs(kind, r).len() == kind.nonlinear_count(),
{
}

fn write_sign(h: &mut SignMatrix, row: Option<usize>, base: usize, shift: usize, v: i8)
    requires
        row matches Some(i) ==> i < old(h)@.len() && base + shift < old(h)@[i as int].len(),
        base + shift <= usize::MAX,
    ensures
        final(h)@ == mark(old(h)@, row, base + shift, v),
        final(h).cols() == old(h).cols(),
        final(h)@.len() == old(h)@.len(),
        forall|i: int| 0 <= i < old(h)@.len() ==> (#[trigger] final(h)@[i]).len() == old(h)@[i].len(),
{
    match row {
        Some(i) => {
            h.set(i, base + shift, v);
        },
        None => {},
    }
}

/// Registers the nonlinear functions of a device: appends them to `g_vec`
/// and writes their signs into the columns of `h_mat` that they take. A
/// device that registers none leaves both as they are, whatever they hold.
pub fn load(
    elem: &Device,
    nodes: &NodeCollection,
    h_mat: &mut SignMatrix,
    g_vec: &mut Vec<NonlinearFunc>,
)
    requires
        elem.kind.nonlinear_count() > 0 ==> {
            &&& elem.wf()
            &&& nodes.wf()
            &&& rows_of(*elem, nodes@).below(old(h_mat)@.len())
            &&& has_shape(
                old(h_mat)@,
                old(h_mat)@.len(),
                old(g_vec)@.len() + elem.kind.nonlinear_count(),
            )
            &&& old(g_vec)@.len() + elem.kind.nonlinear_count() <= usize::MAX
        },
    ensures
        final(g_vec)@ == old(g_vec)@ + registered_funcs(elem.kind, rows_of(*elem, nodes@)),
        final(g_vec)@.len() == old(g_vec)@.len() + elem.kind.nonlinear_count(),
        final(h_mat)@ == registered_signs(
            elem.kind,
            old(h_mat)@,
            rows_of(*elem, nodes@),
            old(g_vec)@.len() as int,
        ),
        final(h_mat).cols() == old(h_mat).cols(),
        final(h_mat)@.len() == old(h_mat)@.len(),
        forall|i: int|
            0 <= i < old(h_mat)@.len() ==> (#[trigger] final(h_mat)@[i]).len() == old(
                h_mat,
            )@[i].len(),
{
    let ghost g0 = g_vec@;
    if count(elem) == 0 {
        assert(g_vec@ =~= g0 + registered_funcs(elem.kind, rows_of(*elem, nodes@)));
        return ;
    }
    let r = Rows::of(elem, nodes);
    let k = g_vec.len();
    match elem.kind {
        DeviceKind::Diode => {
            write_sign(h_mat, r.t0, k, 0, 1);
            write_sign(h_mat, r.t1, k, 0, -1);
            g_vec.push(NonlinearFunc { current: Current::DiodeI, rows: r });
        },
        DeviceKind::NPN => {
            write_sign(h_mat, r.t0, k, 0, 1);
            write_sign(h_mat, r.t1, k, 1, 1);
            write_sign(h_mat, r.t2, k, 2, 1);
            g_vec.push(NonlinearFunc { current: Current::NpnIc, rows: r });
            g_vec.push(NonlinearFunc { current: Current::NpnIb, rows: r });
            g_vec.push(NonlinearFunc { current: Current::NpnIe, rows: r });
        },
        DeviceKind::NMOS => {
            write_sign(h_mat, r.t0, k, 0, 1);
            write_sign(h_mat, r.t1, k, 1, 1);
            write_sign(h_mat, r.t2, k, 2, 1);
            g_vec.push(NonlinearFunc { current: Current::NmosId, rows: r });
            g_vec.push(NonlinearFunc { current: Current::NmosIg, rows: r });
            g_vec.push(NonlinearFunc { current: Current::NmosIs, rows: r });
        },
        _ => {},
    }
    assert(g_vec@ =~= g0 + registered_funcs(elem.kind, r));
}

/// The sign pattern of a two-terminal nonlinear device whose terminals lie
/// on different rows: in its column the first terminal reads +1 and the
/// second -1, a grounded terminal writes nothing, and every other entry
/// keeps its value.
pub proof fn lemma_diode_signs(m: Seq<Seq<i8>>, r: Rows, k: int)
    requires
        r.below(m.len()),
        forall|i: int| 0 <= i < m.len() ==> 0 <= k < (#[trigger] m[i]).len(),
        r.t0.is_some() && r.t1.is_some() ==> r.t0 != r.t1,
    ensures
        ({
            let h = registered_signs(DeviceKind::Diode, m, r, k);
            &&& h.len() == m.len()
            &&& r.t0 matches Some(p) ==> h[p as int][k] == 1
            &&& r.t1 matches Some(n) ==> h[n as int][k] == -1
            &&& forall|i: int, j: int|
                0 <= i < m.len() && 0 <= j < m[i].len() && !(j == k && (r.t0 == Some(i as usize)
                    || r.t1 == Some(i as usize))) ==> h[i].len() == m[i].len() && h[i][j]
                    == m[i][j]
        }),
{
}

/// The sign pattern of a transistor: each terminal reads +1 in a column of
/// its own, a grounded terminal writes nothing, and every other entry keeps
/// its value.
pub proof fn lemma_transistor_signs(kind: DeviceKind, m: Seq<Seq<i8>>, r: Rows, k: int)
    requires
        kind == DeviceKind::NPN || kind == DeviceKind::NMOS,
        r.below(m.len()),
        forall|i: int| 0 <= i < m.len() ==> 0 <= k && k + 2 < (#[trigger] m[i]).len(),
    ensures
        ({
            let h = registered_signs(kind, m, r, k);
            &&& h.len() == m.len()
            &&& r.t0 matches Some(a) ==> h[a as int][k] == 1
            &&& r.t1 matches Some(b) ==> h[b as int][k + 1] == 1
            &&& r.t2 matches Some(c) ==> h[c as int][k + 2] == 1
            &&& forall|i: int, j: int|
                0 <= i < m.len() && 0 <= j < m[i].len() && !((j == k && r.t0 == Some(i as usize))
                    || (j == k + 1 && r.t1 == Some(i as usize)) || (j == k + 2 && r.t2 == Some(
                    i as usize,
                ))) ==> h[i].len() == m[i].len() && h[i][j] == m[i][j]
        }),
{
}

} // verus!
