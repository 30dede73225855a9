//! The logical states of the control lines and the levels that stand for them.

use vstd::prelude::*;

verus! {

/// The state of a control line, named by its meaning and not by its voltage.
#[derive(Clone, Copy, Debug, PartialEq, Eq)]
pub enum Signal {
    Asserted,
    Deasserted,
}

/// The register of the controller that takes the nibbles which follow.
#[derive(Clone, Copy, Debug, PartialEq, Eq)]
pub enum RegisterMode {
    /// Nibbles are commands.
    Instruction,
    /// Nibbles are characters to display.
    Data,
}

/// Which side drives the data lines.
#[derive(Clone, Copy, Debug, PartialEq, Eq)]
pub enum BusAccess {
    /// The host writes to the controller.
    Write,
    /// The controller answers; its busy flag appears on the topmost data line.
    Read,
}

/// The level on the register-select line that selects `mode`.
pub open spec fn register_level(mode: RegisterMode) -> u8 {
    match mode {
        RegisterMode::Instruction => 0,
        RegisterMode::Data => 1,
    }
}

/// The level on the Enable line for `signal`. The line idles high and is pulled
/// low for the length of a strobe.
pub open spec fn enable_level(signal: Signal) -> u8 {
    match signal {
        Signal::Asserted => 0,
        Signal::Deasserted => 1,
    }
}

/// The level on the read/write line for `access`.
pub open spec fn access_level(access: BusAccess) -> u8 {
    match access {
        BusAccess::Write => 0,
        BusAccess::Read => 1,
    }
}

/// The level on a data line that carries `bit`.
pub open spec fn bit_level(bit: bool) -> u8 {
    if bit { 1 } else { 0 }
}

/// Whether a level read from the topmost data line says that the controller is
/// still at work.
pub open spec fn reads_busy(level: u8) -> bool {
    level > 0
}

impl RegisterMode {
    /// The level to put on the register-select line.
    pub fn level(self) -> (level: u8)
        ensures
            level == register_level(self),
    {
        match self {
            RegisterMode::Instruction => 0,
            RegisterMode::Data => 1,
        }
    }
}

impl Signal {
    /// The level to put on the Enable line.
    pub fn level(self) -> (level: u8)
        ensures
            level == enable_level(self),
    {
        match self {
            Signal::Asserted => 0,
            Signal::Deasserted => 1,
        }
    }
}

impl BusAccess {
    /// The level to put on the read/write line.
    pub fn level(self) -> (level: u8)
        ensures
            level == access_level(self),
    {
        match self {
            BusAccess::Write => 0,
            BusAccess::Read => 1,
        }
    }
}

} // verus!
