//! How the display is wired and how the driver waits for it.

use vstd::prelude::*;

verus! {

/// The number of data lines that are written together as one bus.
#[derive(Clone, Copy, Debug, PartialEq, Eq)]
pub enum BusWidth {
    /// D6, D5 and D4 form the bus; D7 is a line of its own.
    Three,
    /// D7 to D4 form the bus.
    Four,
}

impl BusWidth {
    /// The number of lines in a bus of this width.
    pub open spec fn line_count(self) -> nat {
        match self {
            BusWidth::Three => 3,
            BusWidth::Four => 4,
        }
    }

    /// The number of lines in a bus of this width.
    pub fn lines(self) -> (count: usize)
        ensures
            count == self.line_count(),
    {
        match self {
            BusWidth::Three => 3,
            BusWidth::Four => 4,
        }
    }
}

/// How the driver waits until the controller has taken a nibble.
#[derive(Clone, Copy, Debug, PartialEq, Eq)]
pub enum SyncStrategy {
    /// Wait a fixed number of microseconds after each strobe.
    FixedDelay(u64),
    /// Read the busy flag on D7 until it is clear.
    BusyPoll,
}

/// A wiring of the data lines together with the way of waiting that it allows.
/// The busy flag can only be read where D7 is a line of its own, so polling
/// comes with a bus of three.
#[derive(Clone, Copy, Debug, PartialEq, Eq)]
pub enum Wiring {
    /// Nothing is read back; a fixed delay follows each nibble.
    Blind { width: BusWidth, delay: u64 },
    /// D7 is read back as the busy flag after each nibble.
    Readback,
}

/// The wiring for a bus width and a way of waiting, where there is one.
pub open spec fn wiring_of(width: BusWidth, sync: SyncStrategy) -> Option<Wiring> {
    match sync {
        SyncStrategy::FixedDelay(delay) => Some(Wiring::Blind { width, delay }),
        SyncStrategy::BusyPoll => match width {
            BusWidth::Three => Some(Wiring::Readback),
            BusWidth::Four => None,
        },
    }
}

impl Wiring {
    /// The width of the bus in this wiring.
    pub open spec fn bus_width(self) -> BusWidth {
        match self {
            Wiring::Blind { width, .. } => width,
            Wiring::Readback => BusWidth::Three,
        }
    }

    /// The way of waiting in this wiring.
    pub open spec fn strategy(self) -> SyncStrategy {
        match self {
            Wiring::Blind { delay, .. } => SyncStrategy::FixedDelay(delay),
            Wiring::Readback => SyncStrategy::BusyPoll,
        }
    }

    /// Combines a bus width and a way of waiting. Polling the busy flag on a bus
    /// of four is refused: D7 would have to be both a member of the bus and an
    /// input of its own.
    pub fn new(width: BusWidth, sync: SyncStrategy) -> (r: Option<Wiring>)
        ensures
            r == wiring_of(width, sync),
            r is None <==> (width is Four && sync is BusyPoll),
            r matches Some(w) ==> w.bus_width() == width && w.strategy() == sync,
    {
        match sync {
            SyncStrategy::FixedDelay(delay) => Some(Wiring::Blind { width, delay }),
            SyncStrategy::BusyPoll => match width {
                BusWidth::Three => Some(Wiring::Readback),
                BusWidth::Four => None,
            },
        }
    }

    /// The width of the bus.
    pub fn width(self) -> (width: BusWidth)
        ensures
            width == self.bus_width(),
    {
        match self {
            Wiring::Blind { width, .. } => width,
            Wiring::Readback => BusWidth::Three,
        }
    }

    /// The way of waiting.
    pub fn sync(self) -> (sync: SyncStrategy)
        ensures
            sync == self.strategy(),
    {
        match self {
            Wiring::Blind { delay, .. } => SyncStrategy::FixedDelay(delay),
            Wiring::Readback => SyncStrategy::BusyPoll,
        }
    }
}

} // verus!
