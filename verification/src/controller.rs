//! The other end of the wires: what the controller takes in while a script is
//! performed. It latches the data lines whenever Enable is released.
//!
//! Nothing here runs on the host. The model says what the scripts of this crate
//! are for, so that it can be proved that they do it.

use vstd::prelude::*;
use crate::nibble::Nibble;
use crate::script::{
    holds_flag_line, init_transfers, restoring, setup_script, text_script, text_transfers,
    transmission, transmissions, Op, Transfer,
};
use crate::signal::{BusAccess, RegisterMode, Signal};
use crate::wiring::{BusWidth, Wiring};

verus! {

/// The lines as the host drives them.
pub struct Lines {
    /// The register that the register-select line selects, once it was driven.
    pub register: Option<RegisterMode>,
    /// The bits that the host drove last on D7 to D4.
    pub data: Nibble,
    /// Whether D7 is an output of the host. While it is an input, what it
    /// carries is not in the host's hands.
    pub flag_driven: bool,
    /// Which side the read/write line gives the data lines to.
    pub access: BusAccess,
    pub enable: Signal,
    /// The microseconds that have been waited since Enable was last driven.
    pub held: nat,
}

/// One nibble as the controller takes it in.
pub struct Latch {
    /// The register that was selected at the time.
    pub register: Option<RegisterMode>,
    /// The nibble that the host had on the data lines; nothing where the host
    /// had not all four of them in its hands.
    pub nibble: Option<Nibble>,
    /// The microseconds for which Enable had been asserted.
    pub held: nat,
}

impl Lines {
    /// Whether the lines are as they are between transmissions: Enable
    /// released, and the data lines given to the host.
    pub open spec fn at_rest(self) -> bool {
        self.enable is Deasserted && self.access is Write
    }

    /// The lines after `op` was performed.
    pub open spec fn after(self, op: Op) -> Lines {
        match op {
            Op::SelectRegister(mode) => Lines { register: Some(mode), ..self },
            Op::DriveFlagLine(bit) => Lines {
                data: Nibble { b3: bit, ..self.data },
                flag_driven: true,
                ..self
            },
            Op::WriteBus(BusWidth::Four, nibble) => Lines {
                data: nibble,
                flag_driven: true,
                ..self
            },
            Op::WriteBus(BusWidth::Three, nibble) => Lines {
                data: Nibble { b3: self.data.b3, ..nibble },
                ..self
            },
            Op::Enable(signal) => Lines { enable: signal, held: 0, ..self },
            Op::Wait(micros) => Lines { held: self.held + micros as nat, ..self },
            Op::Access(access) => Lines { access, ..self },
            Op::ListenFlagLine => Lines { flag_driven: false, ..self },
            Op::ReadFlagLine => self,
        }
    }

    /// What the controller latches when `op` is performed: where `op` releases
    /// Enable, what is on the data lines, and nothing otherwise.
    pub open spec fn latched_by(self, op: Op) -> Seq<Latch> {
        if op == Op::Enable(Signal::Deasserted) && self.enable is Asserted {
            seq![
                Latch {
                    register: self.register,
                    nibble: if self.flag_driven && self.access is Write {
                        Some(self.data)
                    } else {
                        None
                    },
                    held: self.held,
                },
            ]
        } else {
            Seq::empty()
        }
    }

    /// The lines after a whole script was performed.
    pub open spec fn after_all(self, script: Seq<Op>) -> Lines
        decreases script.len(),
    {
        if script.len() == 0 {
            self
        } else {
            self.after(script.first()).after_all(script.drop_first())
        }
    }

    /// Whether Enable is released whenever `script`, performed from these
    /// lines, comes to an operation that holds D7 as an input.
    pub open spec fn released_at_polls(self, script: Seq<Op>) -> bool
        decreases script.len(),
    {
        script.len() == 0 || {
            &&& holds_flag_line(script.first()) ==> self.enable is Deasserted
            &&& self.after(script.first()).released_at_polls(script.drop_first())
        }
    }

    /// What the controller latches while a script is performed, in order.
    pub open spec fn received(self, script: Seq<Op>) -> Seq<Latch>
        decreases script.len(),
    {
        if script.len() == 0 {
            Seq::empty()
        } else {
            self.latched_by(script.first()) + self.after(script.first()).received(
                script.drop_first(),
            )
        }
    }
}

/// The latches that a run of transfers is meant to cause while `register` is
/// selected: one for each, with its nibble and its hold.
pub open spec fn meant(register: Option<RegisterMode>, transfers: Seq<Transfer>) -> Seq<Latch> {
    Seq::new(
        transfers.len(),
        |i: int|
            Latch { register, nibble: Some(transfers[i].nibble), held: transfers[i].hold as nat },
    )
}

/// Performing a single operation.
pub proof fn lemma_single_received(lines: Lines, op: Op)
    ensures
        lines.received(seq![op]) == lines.latched_by(op),
        lines.after_all(seq![op]) == lines.after(op),
        lines.released_at_polls(seq![op]) == (holds_flag_line(op) ==> lines.enable is Deasserted),
{
    reveal_with_fuel(Lines::received, 2);
    reveal_with_fuel(Lines::after_all, 2);
    reveal_with_fuel(Lines::released_at_polls, 2);
}

/// Performing one script and then another is performing them joined.
pub proof fn lemma_received_concat(lines: Lines, first: Seq<Op>, second: Seq<Op>)
    ensures
        lines.after_all(first + second) == lines.after_all(first).after_all(second),
        lines.received(first + second) == lines.received(first) + lines.after_all(first).received(
            second,
        ),
    decreases first.len(),
{
    if first.len() > 0 {
        assert((first + second).drop_first() == first.drop_first() + second);
        lemma_received_concat(lines.after(first.first()), first.drop_first(), second);
    }
}

/// Enable is released at the polls of two scripts joined where it is at those
/// of the first and, from where the first leaves the lines, at those of the
/// second.
pub proof fn lemma_released_concat(lines: Lines, first: Seq<Op>, second: Seq<Op>)
    ensures
        lines.released_at_polls(first + second) == (lines.released_at_polls(first)
            && lines.after_all(first).released_at_polls(second)),
    decreases first.len(),
{
    if first.len() > 0 {
        assert((first + second).drop_first() == first.drop_first() + second);
        lemma_released_concat(lines.after(first.first()), first.drop_first(), second);
    }
}

/// Where Enable is released at the polls of a script, it is released when the
/// script has been performed up to an operation that holds D7 as an input.
pub proof fn lemma_released_at(lines: Lines, script: Seq<Op>, place: int)
    requires
        lines.released_at_polls(script),
        0 <= place < script.len(),
        holds_flag_line(script[place]),
    ensures
        lines.after_all(script.take(place)).enable is Deasserted,
{
    assert(script == script.take(place) + script.skip(place));
    lemma_released_concat(lines, script.take(place), script.skip(place));
}

/// Turning back after a failure. Whatever was performed before: over the
/// operations that follow a failed one the controller latches nothing and
/// Enable stays as it is; and where the failed one held D7 as an input, the
/// read/write line gives the data lines to the host again and D7 is an output
/// again once they are performed.
pub proof fn lemma_restoring_received(lines: Lines, performed: Seq<Op>, failed: Op)
    ensures
        lines.received(performed + restoring(failed)) == lines.received(performed),
        lines.after_all(performed + restoring(failed)).enable == lines.after_all(performed).enable,
        lines.after_all(performed + restoring(failed)).register == lines.after_all(
            performed,
        ).register,
        holds_flag_line(failed) ==> lines.after_all(performed + restoring(failed)).access is Write,
        holds_flag_line(failed) ==> lines.after_all(performed + restoring(failed)).flag_driven,
{
    reveal_with_fuel(Lines::received, 3);
    reveal_with_fuel(Lines::after_all, 3);
    lemma_received_concat(lines, performed, restoring(failed));
}

/// The transmission of a nibble, begun with the lines at rest, makes the
/// controller latch that nibble once, after Enable was held for as long as
/// asked. It leaves the lines at rest, D7 an output, and the register as it
/// was.
pub proof fn lemma_transmission_received(lines: Lines, wiring: Wiring, transfer: Transfer)
    requires
        lines.at_rest(),
    ensures
        lines.received(transmission(wiring, transfer)) == meant(lines.register, seq![transfer]),
        lines.after_all(transmission(wiring, transfer)).at_rest(),
        lines.after_all(transmission(wiring, transfer)).flag_driven,
        lines.after_all(transmission(wiring, transfer)).register == lines.register,
{
    reveal_with_fuel(Lines::received, 11);
    reveal_with_fuel(Lines::after_all, 11);
}

/// In the transmission of a nibble, begun with the lines at rest, Enable is
/// released by the time that D7 is made an input and read.
pub proof fn lemma_transmission_released(lines: Lines, wiring: Wiring, transfer: Transfer)
    requires
        lines.at_rest(),
    ensures
        lines.released_at_polls(transmission(wiring, transfer)),
{
    reveal_with_fuel(Lines::released_at_polls, 11);
}

/// Any number of transmissions, begun with the lines at rest, make the
/// controller latch exactly the nibbles that were to be sent: each once, in
/// order, after Enable was held for as long as asked, and all under the
/// register that was selected before.
pub proof fn lemma_transmissions_received(lines: Lines, wiring: Wiring, transfers: Seq<Transfer>)
    requires
        lines.at_rest(),
    ensures
        lines.received(transmissions(wiring, transfers)) == meant(lines.register, transfers),
        lines.released_at_polls(transmissions(wiring, transfers)),
        lines.after_all(transmissions(wiring, transfers)).at_rest(),
        transfers.len() > 0 ==> lines.after_all(transmissions(wiring, transfers)).flag_driven,
        lines.after_all(transmissions(wiring, transfers)).register == lines.register,
    decreases transfers.len(),
{
    if transfers.len() > 0 {
        let before = transmissions(wiring, transfers.drop_last());
        let last = transmission(wiring, transfers.last());
        lemma_transmissions_received(lines, wiring, transfers.drop_last());
        lemma_received_concat(lines, before, last);
        lemma_released_concat(lines, before, last);
        lemma_transmission_received(lines.after_all(before), wiring, transfers.last());
        lemma_transmission_released(lines.after_all(before), wiring, transfers.last());
    }
}

/// The initialization, begun with the lines at rest, makes the controller latch
/// the nibbles of the handshake and no others, in order, each held as long as
/// the handshake asks, and all of them as instructions.
pub proof fn lemma_setup_received(lines: Lines, wiring: Wiring)
    requires
        lines.at_rest(),
    ensures
        lines.received(setup_script(wiring)) == meant(
            Some(RegisterMode::Instruction),
            init_transfers(),
        ),
        lines.after_all(setup_script(wiring)).at_rest(),
        lines.released_at_polls(setup_script(wiring)),
        lines.after_all(setup_script(wiring)).flag_driven,
        lines.after_all(setup_script(wiring)).register == Some(RegisterMode::Instruction),
{
    let head = seq![Op::SelectRegister(RegisterMode::Instruction)];
    let rest = transmissions(wiring, init_transfers());
    lemma_received_concat(lines, head, rest);
    lemma_released_concat(lines, head, rest);
    lemma_single_received(lines, head[0]);
    lemma_transmissions_received(lines.after_all(head), wiring, init_transfers());
}

/// Writing a text, begun with the lines at rest, makes the controller latch the
/// high and the low nibble of each ASCII character and no others, in the order
/// of the text, and all of them as data.
pub proof fn lemma_text_received(lines: Lines, wiring: Wiring, text: Seq<char>)
    requires
        lines.at_rest(),
    ensures
        lines.received(text_script(wiring, text)) == meant(
            Some(RegisterMode::Data),
            text_transfers(text),
        ),
        lines.after_all(text_script(wiring, text)).at_rest(),
        lines.released_at_polls(text_script(wiring, text)),
        lines.after_all(text_script(wiring, text)).register == Some(RegisterMode::Data),
{
    let head = seq![Op::SelectRegister(RegisterMode::Data)];
    let rest = transmissions(wiring, text_transfers(text));
    lemma_received_concat(lines, head, rest);
    lemma_released_concat(lines, head, rest);
    lemma_single_received(lines, head[0]);
    lemma_transmissions_received(lines.after_all(head), wiring, text_transfers(text));
}

} // verus!
