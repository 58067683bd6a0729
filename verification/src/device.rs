use vstd::prelude::*;

verus! {

/// Row class of a device: `G1` devices add no unknown of their own, `G2`
/// devices add one branch current, named after the device.
#[derive(Debug, Clone, Copy, PartialEq, Eq, Structural)]
pub enum GType {
    G1,
    G2,
}

/// The kinds of lumped devices the simulator knows.
#[derive(Debug, Clone, Copy, PartialEq, Eq, Structural)]
pub enum DeviceKind {
    Res,
    Cap,
    Ind,
    Vdd,
    Idd,
    Diode,
    NPN,
    NMOS,
}

impl DeviceKind {
    /// Number of terminals of a device of this kind.
    pub open spec fn terminal_count(self) -> nat {
        match self {
            DeviceKind::NPN | DeviceKind::NMOS => 3,
            _ => 2,
        }
    }

    /// Row class in normal operation: only voltage sources carry a branch
    /// current.
    pub open spec fn group(self) -> GType {
        match self {
            DeviceKind::Vdd => GType::G2,
            _ => GType::G1,
        }
    }

    /// Row class while the operating point is sought: an inductor is then a
    /// short whose current is an unknown.
    pub open spec fn group_startup(self) -> GType {
        match self {
            DeviceKind::Vdd | DeviceKind::Ind => GType::G2,
            _ => GType::G1,
        }
    }

    /// Number of nonlinear functions a device of this kind registers.
    pub open spec fn nonlinear_count(self) -> nat {
        match self {
            DeviceKind::Diode => 1,
            DeviceKind::NPN | DeviceKind::NMOS => 3,
            _ => 0,
        }
    }

    /// Whether devices of this kind carry a primary scalar value.
    pub open spec fn carries_value(self) -> bool {
        match self {
            DeviceKind::Diode | DeviceKind::NPN | DeviceKind::NMOS => false,
            _ => true,
        }
    }

    pub fn terminals(self) -> (n: usize)
        ensures
            n == self.terminal_count(),
    {
        match self {
            DeviceKind::NPN | DeviceKind::NMOS => 3,
            _ => 2,
        }
    }

    pub fn has_value(self) -> (r: bool)
        ensures
            r == self.carries_value(),
    {
        match self {
            DeviceKind::Diode | DeviceKind::NPN | DeviceKind::NMOS => false,
            _ => true,
        }
    }
}

/// A device as the assembly layer sees it: its kind, its unique name and
/// the ordered labels of its terminals. Numeric values and time-domain
/// state are kept by the caller.
#[derive(Debug, Clone)]
pub struct Device {
    pub kind: DeviceKind,
    pub name: String,
    pub nodes: Vec<String>,
}

impl Device {
    /// A device is well formed when it has as many terminals as its kind
    /// prescribes.
    pub open spec fn wf(&self) -> bool {
        self.nodes@.len() == self.kind.terminal_count()
    }

    /// The label of terminal `j`.
    pub open spec fn terminal(&self, j: int) -> Seq<char> {
        self.nodes@[j]@
    }

    /// Builds a device, or nothing when the number of terminals does not
    /// fit the kind.
    pub fn new(kind: DeviceKind, name: String, nodes: Vec<String>) -> (r: Option<Device>)
        ensures
            r.is_some() <==> nodes@.len() == kind.terminal_count(),
            r.is_some() ==> r.unwrap().kind == kind && r.unwrap().name == name && r.unwrap().nodes
                == nodes && r.unwrap().wf(),
    {
        if nodes.len() == kind.terminals() {
            Some(Device { kind, name, nodes })
        } else {
            None
        }
    }

    pub fn get_name(&self) -> (r: &str)
        ensures
            r@ == self.name@,
    {
        self.name.as_str()
    }

    pub fn get_nodes(&self) -> (r: &Vec<String>)
        ensures
            r == &self.nodes,
    {
        &self.nodes
    }

    pub fn gtype(&self) -> (r: GType)
        ensures
            r == self.kind.group(),
    {
        match self.kind {
            DeviceKind::Vdd => GType::G2,
            _ => GType::G1,
        }
    }

    pub fn gtype_startup(&self) -> (r: GType)
        ensures
            r == self.kind.group_startup(),
    {
        match self.kind {
            DeviceKind::Vdd | DeviceKind::Ind => GType::G2,
            _ => GType::G1,
        }
    }

    pub fn count_nonlinear_funcs(&self) -> (r: usize)
        ensures
            r == self.kind.nonlinear_count(),
    {
        match self.kind {
            DeviceKind::Diode => 1,
            DeviceKind::NPN | DeviceKind::NMOS => 3,
            _ => 0,
        }
    }
}

} // verus!
