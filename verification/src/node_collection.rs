use crate::device::{Device, GType};
use crate::names::{
    compare_names, lemma_name_lt_asymmetric, lemma_name_lt_irreflexive, lemma_name_lt_total,
    lemma_name_lt_transitive, name_lt, NameOrder,
};
use crate::node::{gnd, is_gnd, MNANode, NodeType};
use vstd::prelude::*;

verus! {

/// One row of the collection: a name and the unknown it stands for.
#[derive(Debug)]
pub struct Entry {
    pub name: String,
    pub node: MNANode,
}

/// Entries in strictly ascending dictionary order of their names.
pub open spec fn sorted_entries(s: Seq<Entry>) -> bool {
    forall|i: int, j: int|
        0 <= i < j < s.len() ==> name_lt(#[trigger] s[i].name@, #[trigger] s[j].name@)
}

/// Whether some entry carries the name `n`.
pub open spec fn has_name(s: Seq<Entry>, n: Seq<char>) -> bool {
    exists|i: int| 0 <= i < s.len() && (#[trigger] s[i]).name@ == n
}

/// The place of an entry named `n`.
pub open spec fn position(s: Seq<Entry>, n: Seq<char>) -> int {
    choose|i: int| 0 <= i < s.len() && (#[trigger] s[i]).name@ == n
}

/// The mapping from names to unknowns that a sequence of entries stands for.
pub open spec fn entries_map(s: Seq<Entry>) -> Map<Seq<char>, MNANode> {
    Map::new(|n: Seq<char>| has_name(s, n), |n: Seq<char>| s[position(s, n)].node)
}

/// The number of names in `names` that come before `n`.
pub open spec fn rank(names: Set<Seq<char>>, n: Seq<char>) -> nat {
    names.filter(|x: Seq<char>| name_lt(x, n)).len()
}

/// Terminal `j` of device `i` carries the label `n`.
pub open spec fn is_terminal_of(elems: Seq<Device>, i: int, j: int, n: Seq<char>) -> bool {
    0 <= i < elems.len() && 0 <= j < elems[i].nodes@.len() && elems[i].nodes@[j]@ == n
}

/// The labels of all terminals of all devices, ground left out.
pub open spec fn voltage_names(elems: Seq<Device>) -> Set<Seq<char>> {
    Set::new(
        |n: Seq<char>| n != gnd() && exists|i: int, j: int| is_terminal_of(elems, i, j, n),
    )
}

/// Whether a device adds a branch current in the chosen regime: when its
/// group in that regime is `G2`. At startup that holds of the voltage
/// sources and of the inductors, in normal operation of the voltage sources
/// alone.
pub open spec fn adds_branch(d: Device, startup: bool) -> bool {
    if startup {
        d.kind.group_startup() == GType::G2
    } else {
        d.kind.group() == GType::G2
    }
}

/// Device `i` adds a branch current named `n`.
pub open spec fn is_branch_of(elems: Seq<Device>, startup: bool, i: int, n: Seq<char>) -> bool {
    0 <= i < elems.len() && adds_branch(elems[i], startup) && elems[i].name@ == n
}

/// The names of the devices that add a branch current.
pub open spec fn branch_names(elems: Seq<Device>, startup: bool) -> Set<Seq<char>> {
    Set::new(|n: Seq<char>| exists|i: int| is_branch_of(elems, startup, i, n))
}

/// Adds unknowns of one class to a mapping: every name in `names` gets the
/// row `off` plus the number of names in `names` that come before it, and
/// replaces an unknown of the same name.
pub open spec fn extend_with(
    base: Map<Seq<char>, MNANode>,
    names: Set<Seq<char>>,
    off: nat,
    ntype: NodeType,
) -> Map<Seq<char>, MNANode> {
    Map::new(
        |n: Seq<char>| base.dom().contains(n) || names.contains(n),
        |n: Seq<char>|
            if names.contains(n) {
                MNANode { ntype, idx: (rank(names, n) + off) as usize }
            } else {
                base[n]
            },
    )
}

/// The voltage unknowns: every terminal label but ground, numbered from 0
/// in dictionary order.
pub open spec fn voltage_map(elems: Seq<Device>) -> Map<Seq<char>, MNANode> {
    extend_with(Map::empty(), voltage_names(elems), 0, NodeType::Voltage)
}

/// The unknowns of one regime: the voltage nodes first, then one current
/// per device that is `G2` in that regime, numbered on from the number of
/// voltage nodes in one run, in dictionary order of the names.
pub open spec fn unknowns_map(elems: Seq<Device>, startup: bool) -> Map<Seq<char>, MNANode> {
    extend_with(
        voltage_map(elems),
        branch_names(elems, startup),
        voltage_names(elems).len(),
        NodeType::Current,
    )
}

/// The unknowns in normal operation.
pub open spec fn normal_map(elems: Seq<Device>) -> Map<Seq<char>, MNANode> {
    unknowns_map(elems, false)
}

/// The unknowns while the operating point is sought.
pub open spec fn startup_map(elems: Seq<Device>) -> Map<Seq<char>, MNANode> {
    unknowns_map(elems, true)
}

/// The terminal labels met before terminal `j` of device `i` in reading
/// order, ground left out.
spec fn voltage_names_upto(elems: Seq<Device>, i: int, j: int) -> Set<Seq<char>> {
    Set::new(
        |n: Seq<char>|
            n != gnd() && exists|a: int, b: int|
                is_terminal_of(elems, a, b, n) && (a < i || (a == i && b < j)),
    )
}

/// The branch names of the devices before device `i`.
spec fn branch_names_upto(elems: Seq<Device>, startup: bool, i: int) -> Set<Seq<char>> {
    Set::new(|n: Seq<char>| exists|a: int| is_branch_of(elems, startup, a, n) && a < i)
}

/// The mapping after the first `k` names of `cs` were added to `base`.
spec fn extend_partial(
    base: Map<Seq<char>, MNANode>,
    cs: Seq<Entry>,
    k: int,
    off: nat,
    ntype: NodeType,
) -> Map<Seq<char>, MNANode> {
    Map::new(
        |n: Seq<char>| base.dom().contains(n) || has_name(cs.take(k), n),
        |n: Seq<char>|
            if has_name(cs.take(k), n) {
                MNANode { ntype, idx: (position(cs, n) + off) as usize }
            } else {
                base[n]
            },
    )
}

/// In a sorted sequence a name is found at one place only.
pub proof fn lemma_entry_at(s: Seq<Entry>, i: int)
    requires
        sorted_entries(s),
        0 <= i < s.len(),
    ensures
        has_name(s, s[i].name@),
        position(s, s[i].name@) == i,
        entries_map(s).dom().contains(s[i].name@),
        entries_map(s)[s[i].name@] == s[i].node,
{
    let n = s[i].name@;
    assert(has_name(s, n));
    let j = position(s, n);
    lemma_name_lt_irreflexive(n);
    if j < i {
        assert(name_lt(s[j].name@, s[i].name@));
    } else if i < j {
        assert(name_lt(s[i].name@, s[j].name@));
    }
}

/// The names of a sorted sequence, as a sequence.
pub open spec fn entry_names(s: Seq<Entry>) -> Seq<Seq<char>> {
    s.map_values(|e: Entry| e.name@)
}

/// A sorted sequence holds as many names as it has entries, and each entry
/// stands at the place that its rank among the names gives.
pub proof fn lemma_rank(s: Seq<Entry>)
    requires
        sorted_entries(s),
    ensures
        entries_map(s).dom().finite(),
        entries_map(s).dom().len() == s.len(),
        forall|i: int| 0 <= i < s.len() ==> rank(entries_map(s).dom(), #[trigger] s[i].name@) == i,
{
    let names = entry_names(s);
    let dom = entries_map(s).dom();
    lemma_names_set(s, s.len() as int);
    assert(s.take(s.len() as int) =~= s);
    assert forall|i: int| 0 <= i < s.len() implies rank(dom, #[trigger] s[i].name@) == i by {
        let n = s[i].name@;
        let below = dom.filter(|x: Seq<char>| name_lt(x, n));
        let prefix = s.take(i);
        lemma_names_set(s, i);
        assert(below =~= entries_map(prefix).dom()) by {
            assert forall|x: Seq<char>| below.contains(x) implies entries_map(prefix).dom().contains(
                x,
            ) by {
                let j = position(s, x);
                assert(has_name(s, x));
                if j >= i {
                    if j > i {
                        assert(name_lt(s[i].name@, s[j].name@));
                        lemma_name_lt_asymmetric(n, x);
                    } else {
                        lemma_name_lt_irreflexive(n);
                    }
                }
                assert(prefix[j].name@ == x);
            }
            assert forall|x: Seq<char>| entries_map(prefix).dom().contains(x) implies below.contains(
                x,
            ) by {
                let j = position(prefix, x);
                assert(has_name(prefix, x));
                assert(s[j].name@ == x);
                assert(name_lt(s[j].name@, s[i].name@));
            }
        }
    }
}

/// The first `k` entries of a sorted sequence carry `k` different names.
proof fn lemma_names_set(s: Seq<Entry>, k: int)
    requires
        sorted_entries(s),
        0 <= k <= s.len(),
    ensures
        entries_map(s.take(k)).dom().finite(),
        entries_map(s.take(k)).dom().len() == k,
{
    let prefix = s.take(k);
    let names = entry_names(prefix);
    assert(names.no_duplicates()) by {
        assert forall|i: int, j: int| 0 <= i < names.len() && 0 <= j < names.len() && i != j implies names[i]
            != names[j] by {
            if i < j {
                assert(name_lt(s[i].name@, s[j].name@));
                lemma_name_lt_irreflexive(names[i]);
            } else {
                assert(name_lt(s[j].name@, s[i].name@));
                lemma_name_lt_irreflexive(names[i]);
            }
        }
    }
    names.unique_seq_to_set();
    vstd::seq_lib::seq_to_set_is_finite(names);
    assert(names.to_set() =~= entries_map(prefix).dom()) by {
        assert forall|x: Seq<char>| names.to_set().contains(x) implies has_name(prefix, x) by {
            let j = choose|j: int| 0 <= j < names.len() && names[j] == x;
            assert(prefix[j].name@ == x);
        }
        assert forall|x: Seq<char>| has_name(prefix, x) implies names.to_set().contains(x) by {
            let j = position(prefix, x);
            assert(names[j] == x);
        }
    }
}

/// The first place whose name does not come before `name`.
fn locate(data: &Vec<Entry>, name: &str) -> (p: usize)
    requires
        sorted_entries(data@),
    ensures
        p <= data@.len(),
        forall|i: int| 0 <= i < p ==> name_lt(#[trigger] data@[i].name@, name@),
        forall|i: int| p <= i < data@.len() ==> !name_lt(#[trigger] data@[i].name@, name@),
{
    let mut p: usize = 0;
    while p < data.len()
        invariant
            p <= data@.len(),
            sorted_entries(data@),
            forall|i: int| 0 <= i < p ==> name_lt(#[trigger] data@[i].name@, name@),
        decreases data@.len() - p,
    {
        match compare_names(data[p].name.as_str(), name) {
            NameOrder::Before => {
                p += 1;
            },
            _ => {
                proof {
                    assert forall|i: int| p <= i < data@.len() implies !name_lt(
                        #[trigger] data@[i].name@,
                        name@,
                    ) by {
                        if i > p && name_lt(data@[i].name@, name@) {
                            assert(name_lt(data@[p as int].name@, data@[i].name@));
                            lemma_name_lt_transitive(
                                data@[p as int].name@,
                                data@[i].name@,
                                name@,
                            );
                        }
                    }
                }
                return p;
            },
        }
    }
    p
}

/// Where `locate` stops, the name is either found or absent from the whole
/// sequence.
proof fn lemma_located(s: Seq<Entry>, n: Seq<char>, p: int)
    requires
        sorted_entries(s),
        0 <= p <= s.len(),
        forall|i: int| 0 <= i < p ==> name_lt(#[trigger] s[i].name@, n),
        forall|i: int| p <= i < s.len() ==> !name_lt(#[trigger] s[i].name@, n),
    ensures
        has_name(s, n) <==> (p < s.len() && s[p].name@ == n),
        !has_name(s, n) ==> forall|i: int| p <= i < s.len() ==> name_lt(n, #[trigger] s[i].name@),
{
    lemma_name_lt_irreflexive(n);
    if has_name(s, n) {
        let j = position(s, n);
        if j > p {
            assert(name_lt(s[p].name@, s[j].name@));
        }
    } else {
        assert forall|i: int| p <= i < s.len() implies name_lt(n, #[trigger] s[i].name@) by {
            assert(s[i].name@ != n);
            lemma_name_lt_total(n, s[i].name@);
        }
    }
}

/// Puts an unknown under a name, in place of one that the name had before.
fn insert_entry(data: &mut Vec<Entry>, name: String, node: MNANode)
    requires
        sorted_entries(old(data)@),
    ensures
        sorted_entries(final(data)@),
        entries_map(final(data)@) == entries_map(old(data)@).insert(name@, node),
        has_name(old(data)@, name@) ==> final(data)@.len() == old(data)@.len(),
        !has_name(old(data)@, name@) ==> final(data)@.len() == old(data)@.len() + 1,
{
    let p = locate(data, name.as_str());
    let ghost before = data@;
    let ghost n = name@;
    proof {
        lemma_located(before, n, p as int);
    }
    if p < data.len() && crate::names::name_eq(data[p].name.as_str(), name.as_str()) {
        data.set(p, Entry { name, node });
        proof {
            let after = data@;
            assert forall|i: int| 0 <= i < after.len() implies after[i].name@
                == before[i].name@ by {}
            assert(sorted_entries(after)) by {
                assert forall|i: int, j: int| 0 <= i < j < after.len() implies name_lt(
                    #[trigger] after[i].name@,
                    #[trigger] after[j].name@,
                ) by {
                    assert(name_lt(before[i].name@, before[j].name@));
                }
            }
            assert(entries_map(after) =~= entries_map(before).insert(n, node)) by {
                assert forall|x: Seq<char>| has_name(after, x) <==> (has_name(before, x) || x
                    == n) by {
                    if has_name(after, x) {
                        let j = position(after, x);
                        assert(before[j].name@ == x);
                    }
                    if has_name(before, x) {
                        let j = position(before, x);
                        assert(after[j].name@ == x);
                    }
                }
                assert forall|x: Seq<char>| has_name(after, x) implies entries_map(after)[x]
                    == entries_map(before).insert(n, node)[x] by {
                    let j = position(after, x);
                    lemma_entry_at(after, j);
                    lemma_entry_at(before, j);
                }
            }
        }
    } else {
        data.insert(p, Entry { name, node });
        proof {
            let after = data@;
            assert(sorted_entries(after)) by {
                assert forall|i: int, j: int| 0 <= i < j < after.len() implies name_lt(
                    #[trigger] after[i].name@,
                    #[trigger] after[j].name@,
                ) by {
                    if j < p {
                        assert(name_lt(before[i].name@, before[j].name@));
                    } else if j == p {
                        assert(name_lt(before[i].name@, n));
                    } else if i < p {
                        assert(name_lt(before[i].name@, before[j - 1].name@));
                    } else if i == p {
                        assert(name_lt(n, before[j - 1].name@));
                    } else {
                        assert(name_lt(before[i - 1].name@, before[j - 1].name@));
                    }
                }
            }
            assert(entries_map(after) =~= entries_map(before).insert(n, node)) by {
                assert forall|x: Seq<char>| has_name(after, x) <==> (has_name(before, x) || x
                    == n) by {
                    if has_name(after, x) {
                        let j = position(after, x);
                        if j < p {
                            assert(before[j].name@ == x);
                        } else if j > p {
                            assert(before[j - 1].name@ == x);
                        }
                    }
                    if has_name(before, x) {
                        let j = position(before, x);
                        if j < p {
                            assert(after[j].name@ == x);
                        } else {
                            assert(after[j + 1].name@ == x);
                        }
                    }
                    if x == n {
                        assert(after[p as int].name@ == x);
                    }
                }
                assert forall|x: Seq<char>| has_name(after, x) implies entries_map(after)[x]
                    == entries_map(before).insert(n, node)[x] by {
                    let j = position(after, x);
                    lemma_entry_at(after, j);
                    if j < p {
                        lemma_entry_at(before, j);
                    } else if j > p {
                        lemma_entry_at(before, j - 1);
                    }
                }
            }
        }
    }
}

/// Some unknown of the mapping stands in row `r`.
pub open spec fn has_row(m: Map<Seq<char>, MNANode>, r: nat) -> bool {
    exists|n: Seq<char>| m.dom().contains(n) && (#[trigger] m[n]).idx == r
}

/// The rows of a mapping are dense: with `n` names they are exactly the
/// numbers below `n`, each used once.
pub open spec fn dense_map(m: Map<Seq<char>, MNANode>) -> bool {
    &&& m.dom().finite()
    &&& forall|n: Seq<char>| m.dom().contains(n) ==> (#[trigger] m[n]).idx < m.dom().len()
    &&& forall|a: Seq<char>, b: Seq<char>|
        m.dom().contains(a) && m.dom().contains(b) && a != b ==> (#[trigger] m[a]).idx != (
        #[trigger] m[b]).idx
    &&& forall|r: nat| r < m.dom().len() ==> #[trigger] has_row(m, r)
}

/// Names added behind a dense mapping that holds none of them leave it
/// dense.
pub proof fn lemma_extend_dense(
    base: Map<Seq<char>, MNANode>,
    cs: Seq<Entry>,
    ntype: NodeType,
)
    requires
        dense_map(base),
        sorted_entries(cs),
        entries_map(cs).dom().disjoint(base.dom()),
        base.dom().len() + cs.len() <= usize::MAX,
    ensures
        dense_map(extend_with(base, entries_map(cs).dom(), base.dom().len(), ntype)),
        extend_with(base, entries_map(cs).dom(), base.dom().len(), ntype).dom().len()
            == base.dom().len() + cs.len(),
{
    let names = entries_map(cs).dom();
    let off = base.dom().len();
    let m = extend_with(base, names, off, ntype);
    lemma_rank(cs);
    assert(m.dom() =~= base.dom() + names);
    vstd::set_lib::lemma_set_disjoint_lens(base.dom(), names);
    assert forall|n: Seq<char>| names.contains(n) implies (#[trigger] m[n]).idx == position(cs, n)
        + off && 0 <= position(cs, n) < cs.len() by {
        let j = position(cs, n);
        assert(has_name(cs, n));
        assert(cs[j].name@ == n);
    }
    assert forall|a: Seq<char>, b: Seq<char>|
        m.dom().contains(a) && m.dom().contains(b) && a != b implies (#[trigger] m[a]).idx != (
    #[trigger] m[b]).idx by {
        if names.contains(a) && names.contains(b) {
            assert(has_name(cs, a));
            assert(has_name(cs, b));
            assert(cs[position(cs, a)].name@ == a);
            assert(cs[position(cs, b)].name@ == b);
        }
    }
    assert forall|r: nat| r < m.dom().len() implies #[trigger] has_row(m, r) by {
        if r < off {
            assert(has_row(base, r));
            let n = choose|n: Seq<char>| base.dom().contains(n) && (#[trigger] base[n]).idx == r;
            assert(!names.contains(n));
            assert(m.dom().contains(n) && m[n].idx == r);
        } else {
            let k = r - off;
            lemma_entry_at(cs, k);
            let n = cs[k].name@;
            assert(names.contains(n));
            assert(m.dom().contains(n) && m[n].idx == r);
        }
    }
}

/// The row of every unknown of a regime: a name that carries a branch
/// current stands behind all voltage nodes, at the place that it has among
/// the names that carry one; any other label stands at the place that it
/// has among the labels.
pub proof fn lemma_unknown_rows(elems: Seq<Device>, startup: bool, n: Seq<char>)
    requires
        unknowns_map(elems, startup).dom().contains(n),
    ensures
        branch_names(elems, startup).contains(n) ==> unknowns_map(elems, startup)[n] == (MNANode {
            ntype: NodeType::Current,
            idx: (rank(branch_names(elems, startup), n) + voltage_names(elems).len()) as usize,
        }),
        !branch_names(elems, startup).contains(n) ==> voltage_names(elems).contains(n)
            && unknowns_map(elems, startup)[n] == (MNANode {
            ntype: NodeType::Voltage,
            idx: rank(voltage_names(elems), n) as usize,
        }),
{
}

/// Ground never stands for a voltage unknown, and it gets a row only where
/// a device that carries a branch current is itself called like ground.
pub proof fn lemma_ground_has_no_row(elems: Seq<Device>)
    ensures
        !voltage_map(elems).dom().contains(gnd()),
        forall|startup: bool|
            #[trigger] unknowns_map(elems, startup).dom().contains(gnd()) <==> branch_names(
                elems,
                startup,
            ).contains(gnd()),
{
}

/// Collects the terminal labels of all devices, ground left out.
fn collect_voltage(elems: &Vec<Device>) -> (volt: Vec<Entry>)
    requires
        forall|i: int| 0 <= i < elems@.len() ==> (#[trigger] elems@[i]).wf(),
        elems@.len() <= usize::MAX / 8,
    ensures
        sorted_entries(volt@),
        entries_map(volt@).dom() == voltage_names(elems@),
        volt@.len() <= 3 * elems@.len(),
{
    let mut volt: Vec<Entry> = Vec::new();
    let mut i: usize = 0;
    assert(entries_map(volt@).dom() =~= voltage_names_upto(elems@, 0, 0));
    while i < elems.len()
        invariant
            i <= elems@.len(),
            elems@.len() <= usize::MAX / 8,
            forall|i: int| 0 <= i < elems@.len() ==> (#[trigger] elems@[i]).wf(),
            sorted_entries(volt@),
            entries_map(volt@).dom() == voltage_names_upto(elems@, i as int, 0),
            volt@.len() <= 3 * i,
        decreases elems@.len() - i,
    {
        let nodes = &elems[i].nodes;
        let mut j: usize = 0;
        assert(elems@[i as int].wf());
        while j < nodes.len()
            invariant
                i < elems@.len(),
                j <= nodes@.len(),
                nodes@.len() <= 3,
                nodes@ == elems@[i as int].nodes@,
                sorted_entries(volt@),
                entries_map(volt@).dom() == voltage_names_upto(elems@, i as int, j as int),
                volt@.len() <= 3 * i + j,
            decreases nodes@.len() - j,
        {
            let ghost before = entries_map(volt@).dom();
            let ghost n = nodes@[j as int]@;
            if !is_gnd(nodes[j].as_str()) {
                insert_entry(
                    &mut volt,
                    nodes[j].clone(),
                    MNANode { ntype: NodeType::Voltage, idx: 0 },
                );
                proof {
                    assert(is_terminal_of(elems@, i as int, j as int, n));
                    assert(before.insert(n) =~= voltage_names_upto(elems@, i as int, j + 1));
                }
            } else {
                proof {
                    assert(before =~= voltage_names_upto(elems@, i as int, j + 1));
                }
            }
            j += 1;
        }
        proof {
            assert(voltage_names_upto(elems@, i as int, j as int) =~= voltage_names_upto(
                elems@,
                i + 1,
                0,
            ));
        }
        i += 1;
    }
    proof {
        assert(voltage_names_upto(elems@, i as int, 0) =~= voltage_names(elems@));
    }
    volt
}

/// Collects the names of the devices that add a branch current.
fn collect_branch(elems: &Vec<Device>, startup: bool) -> (cs: Vec<Entry>)
    ensures
        sorted_entries(cs@),
        entries_map(cs@).dom() == branch_names(elems@, startup),
        cs@.len() <= elems@.len(),
{
    let mut cs: Vec<Entry> = Vec::new();
    let mut i: usize = 0;
    assert(entries_map(cs@).dom() =~= branch_names_upto(elems@, startup, 0));
    while i < elems.len()
        invariant
            i <= elems@.len(),
            sorted_entries(cs@),
            entries_map(cs@).dom() == branch_names_upto(elems@, startup, i as int),
            cs@.len() <= i,
        decreases elems@.len() - i,
    {
        let ghost before = entries_map(cs@).dom();
        let ghost n = elems@[i as int].name@;
        let take = if startup {
            elems[i].gtype_startup() == GType::G2
        } else {
            elems[i].gtype() == GType::G2
        };
        if take {
            insert_entry(
                &mut cs,
                elems[i].name.clone(),
                MNANode { ntype: NodeType::Current, idx: 0 },
            );
            proof {
                assert(is_branch_of(elems@, startup, i as int, n));
                assert(before.insert(n) =~= branch_names_upto(elems@, startup, i + 1));
            }
        } else {
            proof {
                assert(before =~= branch_names_upto(elems@, startup, i + 1));
            }
        }
        i += 1;
    }
    proof {
        assert(branch_names_upto(elems@, startup, i as int) =~= branch_names(elems@, startup));
    }
    cs
}

/// Adds the names of `cs` to `data` as unknowns of class `ntype`, numbered
/// from `off` in their order.
fn extend(data: &mut Vec<Entry>, cs: &Vec<Entry>, off: usize, ntype: NodeType)
    requires
        sorted_entries(old(data)@),
        sorted_entries(cs@),
        cs@.len() + off <= usize::MAX,
    ensures
        sorted_entries(final(data)@),
        entries_map(final(data)@) == extend_with(
            entries_map(old(data)@),
            entries_map(cs@).dom(),
            off as nat,
            ntype,
        ),
        final(data)@.len() <= old(data)@.len() + cs@.len(),
{
    let ghost base = entries_map(data@);
    let mut k: usize = 0;
    proof {
        assert(entries_map(data@) =~= extend_partial(base, cs@, 0, off as nat, ntype));
    }
    while k < cs.len()
        invariant
            k <= cs@.len(),
            cs@.len() + off <= usize::MAX,
            sorted_entries(cs@),
            sorted_entries(data@),
            entries_map(data@) == extend_partial(base, cs@, k as int, off as nat, ntype),
            data@.len() <= old(data)@.len() + k,
        decreases cs@.len() - k,
    {
        let node = MNANode { ntype, idx: k + off };
        let ghost n = cs@[k as int].name@;
        insert_entry(data, cs[k].name.clone(), node);
        proof {
            lemma_entry_at(cs@, k as int);
            let prev = extend_partial(base, cs@, k as int, off as nat, ntype);
            let next = extend_partial(base, cs@, k + 1, off as nat, ntype);
            assert forall|x: Seq<char>| has_name(cs@.take(k + 1), x) <==> (has_name(
                cs@.take(k as int),
                x,
            ) || x == n) by {
                if has_name(cs@.take(k + 1), x) {
                    let j = position(cs@.take(k + 1), x);
                    if j < k {
                        assert(cs@.take(k as int)[j].name@ == x);
                    }
                }
                if has_name(cs@.take(k as int), x) {
                    let j = position(cs@.take(k as int), x);
                    assert(cs@.take(k + 1)[j].name@ == x);
                }
                if x == n {
                    assert(cs@.take(k + 1)[k as int].name@ == x);
                }
            }
            assert(prev.insert(n, node) =~= next);
        }
        k += 1;
    }
    proof {
        lemma_rank(cs@);
        assert(cs@.take(k as int) =~= cs@);
        let last = extend_partial(base, cs@, k as int, off as nat, ntype);
        let goal = extend_with(base, entries_map(cs@).dom(), off as nat, ntype);
        assert forall|x: Seq<char>| has_name(cs@, x) implies position(cs@, x) == rank(
            entries_map(cs@).dom(),
            x,
        ) by {
            let j = position(cs@, x);
            assert(cs@[j].name@ == x);
        }
        assert(last =~= goal);
    }
}

/// The unknowns of a circuit, each under its name: node voltages under the
/// labels of the nodes, branch currents under the names of the devices
/// that carry them. The names are kept in dictionary order.
#[derive(Debug)]
pub struct NodeCollection {
    data: Vec<Entry>,
}

impl View for NodeCollection {
    type V = Map<Seq<char>, MNANode>;

    open spec fn view(&self) -> Map<Seq<char>, MNANode> {
        entries_map(self.entries())
    }
}

/// Builds the rows of one regime.
fn build(elems: &Vec<Device>, startup: bool) -> (data: Vec<Entry>)
    requires
        forall|i: int| 0 <= i < elems@.len() ==> (#[trigger] elems@[i]).wf(),
        elems@.len() <= usize::MAX / 8,
    ensures
        sorted_entries(data@),
        entries_map(data@) == unknowns_map(elems@, startup),
        voltage_names(elems@).finite(),
        branch_names(elems@, startup).finite(),
        voltage_names(elems@).disjoint(branch_names(elems@, startup)) ==> dense_map(
            unknowns_map(elems@, startup),
        ) && unknowns_map(elems@, startup).dom().len() == voltage_names(elems@).len()
            + branch_names(elems@, startup).len(),
{
    let volt = collect_voltage(elems);
    let cs = collect_branch(elems, startup);
    let vlen = volt.len();
    let mut data: Vec<Entry> = Vec::new();
    proof {
        let empty = Map::<Seq<char>, MNANode>::empty();
        assert(entries_map(data@) =~= empty);
        lemma_rank(volt@);
        lemma_rank(cs@);
        assert(empty.dom() =~= Set::<Seq<char>>::empty());
        assert(dense_map(empty));
        lemma_extend_dense(empty, volt@, NodeType::Voltage);
        if voltage_names(elems@).disjoint(branch_names(elems@, startup)) {
            assert(voltage_map(elems@).dom() =~= voltage_names(elems@));
            lemma_extend_dense(voltage_map(elems@), cs@, NodeType::Current);
        }
    }
    extend(&mut data, &volt, 0, NodeType::Voltage);
    extend(&mut data, &cs, vlen, NodeType::Current);
    data
}

impl NodeCollection {
    /// The entries in the order of their names.
    pub closed spec fn entries(&self) -> Seq<Entry> {
        self.data@
    }

    /// The names stand in strictly ascending dictionary order.
    pub open spec fn wf(&self) -> bool {
        sorted_entries(self.entries())
    }

    /// The unknowns of the circuit in normal operation: the voltage nodes
    /// in dictionary order, then the currents of the voltage sources in
    /// dictionary order.
    pub fn from_elems(elems: &Vec<Device>) -> (nc: NodeCollection)
        requires
            forall|i: int| 0 <= i < elems@.len() ==> (#[trigger] elems@[i]).wf(),
            elems@.len() <= usize::MAX / 8,
        ensures
            nc.wf(),
            nc@ == normal_map(elems@),
            voltage_names(elems@).finite(),
            branch_names(elems@, false).finite(),
            voltage_names(elems@).disjoint(branch_names(elems@, false)) ==> dense_map(nc@)
                && nc@.dom().len() == voltage_names(elems@).len() + branch_names(
                elems@,
                false,
            ).len(),
    {
        NodeCollection { data: build(elems, false) }
    }

    /// The unknowns of the circuit while its operating point is sought:
    /// the voltage nodes in dictionary order, then the currents of the
    /// voltage sources and of the inductors, all in one run in dictionary
    /// order.
    pub fn from_startup_elems(elems: &Vec<Device>) -> (nc: NodeCollection)
        requires
            forall|i: int| 0 <= i < elems@.len() ==> (#[trigger] elems@[i]).wf(),
            elems@.len() <= usize::MAX / 8,
        ensures
            nc.wf(),
            nc@ == startup_map(elems@),
            voltage_names(elems@).finite(),
            branch_names(elems@, true).finite(),
            voltage_names(elems@).disjoint(branch_names(elems@, true)) ==> dense_map(nc@)
                && nc@.dom().len() == voltage_names(elems@).len() + branch_names(
                elems@,
                true,
            ).len(),
    {
        NodeCollection { data: build(elems, true) }
    }

    /// The number of unknowns.
    pub fn len(&self) -> (n: usize)
        requires
            self.wf(),
        ensures
            self@.dom().finite(),
            n == self@.dom().len(),
            n == self.entries().len(),
    {
        proof {
            lemma_rank(self.data@);
        }
        self.data.len()
    }

    /// The row of the unknown called `name`, if there is one.
    pub fn get_idx(&self, name: &str) -> (r: Option<usize>)
        requires
            self.wf(),
        ensures
            r == if self@.dom().contains(name@) {
                Some(self@[name@].idx)
            } else {
                None
            },
    {
        let p = locate(&self.data, name);
        proof {
            lemma_located(self.data@, name@, p as int);
        }
        if p < self.data.len() && crate::names::name_eq(self.data[p].name.as_str(), name) {
            proof {
                lemma_entry_at(self.data@, p as int);
            }
            Some(self.data[p].node.idx)
        } else {
            None
        }
    }

    /// The names with their unknowns, in dictionary order of the names.
    pub fn iter(&self) -> (r: Vec<(String, MNANode)>)
        ensures
            r@.len() == self.entries().len(),
            forall|i: int|
                0 <= i < r@.len() ==> (#[trigger] r@[i]).0@ == self.entries()[i].name@ && r@[i].1
                    == self.entries()[i].node,
    {
        let mut r: Vec<(String, MNANode)> = Vec::new();
        let mut i: usize = 0;
        while i < self.data.len()
            invariant
                i <= self.data@.len(),
                r@.len() == i,
                forall|k: int|
                    0 <= k < i ==> (#[trigger] r@[k]).0@ == self.data@[k].name@ && r@[k].1
                        == self.data@[k].node,
            decreases self.data@.len() - i,
        {
            r.push((self.data[i].name.clone(), self.data[i].node));
            i += 1;
        }
        r
    }

    /// The names in dictionary order.
    pub fn keys(&self) -> (r: Vec<String>)
        ensures
            r@.len() == self.entries().len(),
            forall|i: int| 0 <= i < r@.len() ==> (#[trigger] r@[i])@ == self.entries()[i].name@,
    {
        let mut r: Vec<String> = Vec::new();
        let mut i: usize = 0;
        while i < self.data.len()
            invariant
                i <= self.data@.len(),
                r@.len() == i,
                forall|k: int| 0 <= k < i ==> (#[trigger] r@[k])@ == self.data@[k].name@,
            decreases self.data@.len() - i,
        {
            r.push(self.data[i].name.clone());
            i += 1;
        }
        r
    }

    /// The unknowns in dictionary order of their names.
    pub fn values(&self) -> (r: Vec<MNANode>)
        ensures
            r@.len() == self.entries().len(),
            forall|i: int| 0 <= i < r@.len() ==> #[trigger] r@[i] == self.entries()[i].node,
    {
        let mut r: Vec<MNANode> = Vec::new();
        let mut i: usize = 0;
        while i < self.data.len()
            invariant
                i <= self.data@.len(),
                r@.len() == i,
                forall|k: int| 0 <= k < i ==> #[trigger] r@[k] == self.data@[k].node,
            decreases self.data@.len() - i,
        {
            r.push(self.data[i].node);
            i += 1;
        }
        r
    }
}

} // verus!
