//! 13-bit packet identifiers.

use vstd::prelude::*;

verus! {

/// A 13-bit packet identifier.  0x0000 is the PAT, 0x1FFF the null packet,
/// everything else a user PID.
#[allow(non_camel_case_types)]
#[derive(Clone, Copy, PartialEq, Eq, Hash, Debug, Structural)]
pub enum Pid {
    PAT,
    NULL,
    Other(u16),
}

impl Pid {
    /// True for the reserved section PIDs (here: the PAT).
    pub fn is_section(self) -> (r: bool)
        ensures
            r == (self is PAT),
    {
        match self {
            Pid::Other(..) | Pid::NULL => false,
            _ => true,
        }
    }

    pub fn is_null(self) -> (r: bool)
        ensures
            r == (self is NULL),
    {
        match self {
            Pid::NULL => true,
            _ => false,
        }
    }

    pub fn is_other(self) -> (r: bool)
        ensures
            r == (self is Other),
    {
        match self {
            Pid::Other(..) => true,
            _ => false,
        }
    }
}

/// The PID denoted by a 13-bit value.
pub open spec fn spec_pid_from(d: u16) -> Pid {
    if d == 0x0000 {
        Pid::PAT
    } else if d == 0x1FFF {
        Pid::NULL
    } else {
        Pid::Other(d)
    }
}

/// The 13-bit value of a PID.
pub open spec fn spec_pid_value(pid: Pid) -> u16 {
    match pid {
        Pid::PAT => 0x0000,
        Pid::NULL => 0x1FFF,
        Pid::Other(d) => d,
    }
}

impl From<u16> for Pid {
    fn from(d: u16) -> (r: Self)
        ensures
            r == spec_pid_from(d),
    {
        match d {
            0x0000 => Pid::PAT,
            0x1FFF => Pid::NULL,
            _ => Pid::Other(d),
        }
    }
}

impl vstd::std_specs::convert::FromSpecImpl<u16> for Pid {
    open spec fn obeys_from_spec() -> bool {
        true
    }

    open spec fn from_spec(d: u16) -> Pid {
        spec_pid_from(d)
    }
}

impl From<Pid> for u16 {
    fn from(pid: Pid) -> (r: u16)
        ensures
            r == spec_pid_value(pid),
    {
        match pid {
            Pid::PAT => 0x0000,
            Pid::NULL => 0x1FFF,
            Pid::Other(d) => d,
        }
    }
}

impl vstd::std_specs::convert::FromSpecImpl<Pid> for u16 {
    open spec fn obeys_from_spec() -> bool {
        true
    }

    open spec fn from_spec(pid: Pid) -> u16 {
        spec_pid_value(pid)
    }
}

/// Round trip: a PID rebuilt from its 13-bit value is itself, whenever the
/// value is canonical (`Other` never holds a reserved value).
pub proof fn lemma_pid_value_round_trip(pid: Pid)
    requires
        pid matches Pid::Other(d) ==> d != 0x0000 && d != 0x1FFF,
    ensures
        spec_pid_from(spec_pid_value(pid)) == pid,
{
}

} // verus!
