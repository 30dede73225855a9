//! The driver: it walks through a script one operation at a time, handing each
//! to the caller and taking the caller's report before it goes on.

use vstd::prelude::*;
use crate::script::{holds_flag_line, Op};
use crate::signal::{reads_busy, BusAccess, RegisterMode};

verus! {

/// What the caller reports after it has tried to perform an operation.
#[derive(Clone, Copy, Debug, PartialEq, Eq)]
pub enum Event {
    /// The operation was performed. It was not a read.
    Done,
    /// The operation was a read of D7 and gave this level.
    Level(u8),
    /// The operation could not be performed.
    Failed,
}

/// Why the driver has stopped for good.
#[derive(Clone, Copy, Debug, PartialEq, Eq)]
pub enum Fault {
    /// An operation on a pin failed.
    Io,
    /// The caller reported something that the driver had not asked for, or
    /// started a script while another was still under way.
    OutOfTurn,
}

/// What the driver wants from the caller next.
#[derive(Clone, Copy, Debug, PartialEq, Eq)]
pub enum Action {
    /// Perform this operation and report what came of it.
    Perform(Op),
    /// The script is through.
    Finished,
    /// The driver has stopped; nothing more will be performed.
    Abort(Fault),
}

/// Where the driver stands.
#[derive(Clone, Copy, Debug, PartialEq, Eq)]
pub enum Status {
    /// No script is under way.
    Idle,
    /// An operation has been handed out and its report is awaited.
    Running,
    /// An operation failed while D7 was held as an input. The script is given
    /// up; the read/write line is being set back to writing.
    RestoringAccess,
    /// The read/write line has been dealt with; D7 is being made an output
    /// again. After that the driver stops for good.
    RestoringFlagLine,
    /// The driver has stopped for good.
    Halted(Fault),
}

/// The driver as a mathematical value.
pub struct DriverState {
    /// The script under way; empty when none is.
    pub script: Seq<Op>,
    /// The place in the script of the operation that was handed out last.
    pub cursor: int,
    pub status: Status,
    /// The register that was selected last, as far as the driver knows.
    pub register: Option<RegisterMode>,
}

impl DriverState {
    /// A running driver points into its script; any other holds no script.
    pub open spec fn wf(self) -> bool {
        match self.status {
            Status::Running => 0 <= self.cursor < self.script.len(),
            _ => self.script.len() == 0 && self.cursor == 0,
        }
    }

    /// A driver that has done nothing yet.
    pub open spec fn fresh() -> DriverState {
        DriverState { script: Seq::empty(), cursor: 0, status: Status::Idle, register: None }
    }

    /// This driver with its script given up, in another status.
    pub open spec fn without_script(self, status: Status) -> DriverState {
        DriverState { script: Seq::empty(), cursor: 0, status, register: self.register }
    }

    /// This driver, stopped for good.
    pub open spec fn halted(self, fault: Fault) -> DriverState {
        self.without_script(Status::Halted(fault))
    }

    /// The operation that was handed out last.
    pub open spec fn current(self) -> Op {
        self.script[self.cursor]
    }

    /// The register that is selected once the current operation is performed.
    pub open spec fn register_after(self) -> Option<RegisterMode> {
        match self.current() {
            Op::SelectRegister(mode) => Some(mode),
            _ => self.register,
        }
    }

    /// Starting on `script`. An idle driver hands out the first operation, or
    /// is through at once where there is none. A driver that is under way
    /// stops for good; one that is turning the bus back after a failure stops
    /// on that failure.
    pub open spec fn begin(self, script: Seq<Op>) -> (DriverState, Action) {
        match self.status {
            Status::Halted(fault) => (self, Action::Abort(fault)),
            Status::Running => (self.halted(Fault::OutOfTurn), Action::Abort(Fault::OutOfTurn)),
            Status::RestoringAccess => (self.halted(Fault::Io), Action::Abort(Fault::Io)),
            Status::RestoringFlagLine => (self.halted(Fault::Io), Action::Abort(Fault::Io)),
            Status::Idle => if script.len() == 0 {
                (self, Action::Finished)
            } else {
                (
                    DriverState {
                        script,
                        cursor: 0,
                        status: Status::Running,
                        register: self.register,
                    },
                    Action::Perform(script[0]),
                )
            },
        }
    }

    /// Going on after the current operation was performed: to the next
    /// operation, or to rest when that was the last.
    pub open spec fn advance(self) -> (DriverState, Action) {
        if self.cursor + 1 < self.script.len() {
            (
                DriverState {
                    script: self.script,
                    cursor: self.cursor + 1,
                    status: Status::Running,
                    register: self.register_after(),
                },
                Action::Perform(self.script[self.cursor + 1]),
            )
        } else {
            (
                DriverState {
                    script: Seq::empty(),
                    cursor: 0,
                    status: Status::Idle,
                    register: self.register_after(),
                },
                Action::Finished,
            )
        }
    }

    /// Taking a report. A failure gives the script up. Where the operation
    /// that failed held D7 as an input, the read/write line is set back to
    /// writing and D7 is made an output again, whatever comes of either, and
    /// then the driver stops; after any other operation it stops at once. A
    /// report of the wrong kind stops the driver too. A read that shows the
    /// controller busy is repeated; anything else moves the driver on.
    pub open spec fn step(self, event: Event) -> (DriverState, Action) {
        match self.status {
            Status::Halted(fault) => (self, Action::Abort(fault)),
            Status::Idle => (self.halted(Fault::OutOfTurn), Action::Abort(Fault::OutOfTurn)),
            Status::RestoringAccess => (
                self.without_script(Status::RestoringFlagLine),
                Action::Perform(Op::DriveFlagLine(false)),
            ),
            Status::RestoringFlagLine => (self.halted(Fault::Io), Action::Abort(Fault::Io)),
            Status::Running => match event {
                Event::Failed => if holds_flag_line(self.current()) {
                    (
                        self.without_script(Status::RestoringAccess),
                        Action::Perform(Op::Access(BusAccess::Write)),
                    )
                } else {
                    (self.halted(Fault::Io), Action::Abort(Fault::Io))
                },
                Event::Done => if self.current() is ReadFlagLine {
                    (self.halted(Fault::OutOfTurn), Action::Abort(Fault::OutOfTurn))
                } else {
                    self.advance()
                },
                Event::Level(level) => if self.current() is ReadFlagLine {
                    if reads_busy(level) {
                        (self, Action::Perform(Op::ReadFlagLine))
                    } else {
                        self.advance()
                    }
                } else {
                    (self.halted(Fault::OutOfTurn), Action::Abort(Fault::OutOfTurn))
                },
            },
        }
    }
}

impl DriverState {
    /// Taking several reports in a row: where the driver stands in the end, and
    /// the actions it answered with, in order.
    pub open spec fn run(self, events: Seq<Event>) -> (DriverState, Seq<Action>)
        decreases events.len(),
    {
        if events.len() == 0 {
            (self, Seq::empty())
        } else {
            let (next, action) = self.step(events.first());
            let (end, actions) = next.run(events.drop_first());
            (end, seq![action] + actions)
        }
    }
}

/// The driver of one display.
pub struct Driver {
    script: Vec<Op>,
    cursor: usize,
    status: Status,
    register: Option<RegisterMode>,
}

impl View for Driver {
    type V = DriverState;

    closed spec fn view(&self) -> DriverState {
        DriverState {
            script: self.script@,
            cursor: self.cursor as int,
            status: self.status,
            register: self.register,
        }
    }
}

impl Driver {
    #[verifier::type_invariant]
    spec fn inv(self) -> bool {
        match self.status {
            Status::Running => self.cursor < self.script@.len(),
            _ => self.script@.len() == 0 && self.cursor == 0,
        }
    }

    /// A driver that has done nothing yet. Which register the controller has
    /// selected is not known to it.
    pub fn new() -> (driver: Driver)
        ensures
            driver@ == DriverState::fresh(),
            driver@.wf(),
    {
        Driver { script: Vec::new(), cursor: 0, status: Status::Idle, register: None }
    }

    /// Where the driver stands.
    pub fn status(&self) -> (status: Status)
        ensures
            status == self@.status,
    {
        self.status
    }

    /// The register that was selected last, if any was.
    pub fn register(&self) -> (register: Option<RegisterMode>)
        ensures
            register == self@.register,
    {
        self.register
    }

    fn give_up(&mut self, status: Status)
        requires
            !(status is Running),
        ensures
            final(self)@ == old(self)@.without_script(status),
    {
        *self = Driver { script: Vec::new(), cursor: 0, status, register: self.register };
    }

    fn halt(&mut self, fault: Fault) -> (action: Action)
        ensures
            final(self)@ == old(self)@.halted(fault),
            action == Action::Abort(fault),
    {
        self.give_up(Status::Halted(fault));
        Action::Abort(fault)
    }

    /// Starts on a script. An idle driver hands out the first operation, or is
    /// through at once where the script is empty. A driver that is still under
    /// way takes this for a misuse and stops for good; one that is turning the
    /// bus back after a failure stops on that failure; one that has stopped
    /// answers with the fault it stopped on.
    pub fn begin(&mut self, script: Vec<Op>) -> (action: Action)
        ensures
            final(self)@ == old(self)@.begin(script@).0,
            action == old(self)@.begin(script@).1,
            final(self)@.wf(),
    {
        proof {
            use_type_invariant(&*self);
        }
        match self.status {
            Status::Halted(fault) => Action::Abort(fault),
            Status::Running => self.halt(Fault::OutOfTurn),
            Status::RestoringAccess => self.halt(Fault::Io),
            Status::RestoringFlagLine => self.halt(Fault::Io),
            Status::Idle => {
                if script.len() == 0 {
                    Action::Finished
                } else {
                    let first = script[0];
                    *self = Driver {
                        script,
                        cursor: 0,
                        status: Status::Running,
                        register: self.register,
                    };
                    Action::Perform(first)
                }
            },
        }
    }

    fn advance(&mut self) -> (action: Action)
        requires
            old(self)@.status is Running,
        ensures
            final(self)@ == old(self)@.advance().0,
            action == old(self)@.advance().1,
    {
        proof {
            use_type_invariant(&*self);
        }
        let register = match self.script[self.cursor] {
            Op::SelectRegister(mode) => Some(mode),
            _ => self.register,
        };
        let len = self.script.len();
        if self.cursor + 1 < len {
            let next = self.script[self.cursor + 1];
            self.register = register;
            self.cursor = self.cursor + 1;
            Action::Perform(next)
        } else {
            *self = Driver { script: Vec::new(), cursor: 0, status: Status::Idle, register };
            Action::Finished
        }
    }

    /// Takes the report on the operation that was handed out last and says what
    /// is to be done next: the next operation of the script, the same read once
    /// more where D7 showed busy, or nothing more where the script is through. A
    /// failure gives the script up. Where it struck while D7 was held as an
    /// input, the driver first has the read/write line set back to writing and
    /// D7 made an output again, whatever is reported of either, and then stops
    /// for good; anywhere else it stops at once. A report of the wrong kind, or
    /// one that nothing asked for, stops it at once too.
    pub fn step(&mut self, event: Event) -> (action: Action)
        ensures
            final(self)@ == old(self)@.step(event).0,
            action == old(self)@.step(event).1,
            final(self)@.wf(),
    {
        proof {
            use_type_invariant(&*self);
        }
        match self.status {
            Status::Halted(fault) => Action::Abort(fault),
            Status::Idle => self.halt(Fault::OutOfTurn),
            Status::RestoringAccess => {
                self.give_up(Status::RestoringFlagLine);
                Action::Perform(Op::DriveFlagLine(false))
            },
            Status::RestoringFlagLine => self.halt(Fault::Io),
            Status::Running => {
                let reading = match self.script[self.cursor] {
                    Op::ReadFlagLine => true,
                    _ => false,
                };
                let listening = match self.script[self.cursor] {
                    Op::ListenFlagLine => true,
                    _ => false,
                };
                match event {
                    Event::Failed => if reading || listening {
                        self.give_up(Status::RestoringAccess);
                        Action::Perform(Op::Access(BusAccess::Write))
                    } else {
                        self.halt(Fault::Io)
                    },
                    Event::Done => if reading {
                        self.halt(Fault::OutOfTurn)
                    } else {
                        self.advance()
                    },
                    Event::Level(level) => if reading {
                        if level > 0 {
                            Action::Perform(Op::ReadFlagLine)
                        } else {
                            self.advance()
                        }
                    } else {
                        self.halt(Fault::OutOfTurn)
                    },
                }
            },
        }
    }
}

} // verus!
