//! What a transmission, the initialization and a text consist of: sequences of
//! operations on the pins, laid down before any of them is performed.

use vstd::prelude::*;
use crate::nibble::{encode, encoding, Nibble};
use crate::signal::{bit_level, BusAccess, RegisterMode, Signal};
use crate::wiring::{BusWidth, Wiring};

verus! {

/// The shortest time, in microseconds, that Enable is held after the first
/// nibble of the reset handshake.
pub const RESET_FIRST_MICROS: u64 = 4_100;

/// The shortest time, in microseconds, that Enable is held after the second
/// nibble of the reset handshake.
pub const RESET_SECOND_MICROS: u64 = 100;

/// The time, in microseconds, that Enable is held for every other nibble. It
/// lies well above what the controller needs for its slowest instruction.
pub const HOLD_MICROS: u64 = 40_000;

/// One operation on the pins.
#[derive(Clone, Copy, Debug, PartialEq, Eq)]
pub enum Op {
    /// Drive the register-select line for this register.
    SelectRegister(RegisterMode),
    /// Make D7 an output that carries this bit.
    DriveFlagLine(bool),
    /// Write the lowest bits of the nibble, as many as the bus is wide, to the
    /// bus in one go, the most significant of them on the topmost line.
    WriteBus(BusWidth, Nibble),
    /// Drive the Enable line.
    Enable(Signal),
    /// Let this many microseconds pass.
    Wait(u64),
    /// Drive the read/write line.
    Access(BusAccess),
    /// Make D7 an input.
    ListenFlagLine,
    /// Read D7. The operation is repeated for as long as the line reads busy.
    ReadFlagLine,
}

/// A nibble to be sent and the time, in microseconds, for which Enable is held
/// to commit it.
#[derive(Clone, Copy, Debug, PartialEq, Eq)]
pub struct Transfer {
    pub nibble: Nibble,
    pub hold: u64,
}

/// The levels that `WriteBus(width, nibble)` puts on the bus, topmost line
/// first: those of all four bits on a bus of four, and those of the three bits
/// after the most significant on a bus of three.
pub open spec fn bus_levels(width: BusWidth, nibble: Nibble) -> Seq<u8> {
    match width {
        BusWidth::Three => nibble@.skip(1).map_values(|bit: bool| bit_level(bit)),
        BusWidth::Four => nibble@.map_values(|bit: bool| bit_level(bit)),
    }
}

/// One pulse on Enable: asserted, held, deasserted.
pub open spec fn strobe(hold: u64) -> Seq<Op> {
    seq![Op::Enable(Signal::Asserted), Op::Wait(hold), Op::Enable(Signal::Deasserted)]
}

/// Putting a nibble on the data lines. Where D7 is a line of its own it takes
/// the most significant bit before the bus takes the other three.
pub open spec fn present(wiring: Wiring, nibble: Nibble) -> Seq<Op> {
    match wiring.bus_width() {
        BusWidth::Three => seq![
            Op::DriveFlagLine(nibble.b3),
            Op::WriteBus(BusWidth::Three, nibble),
        ],
        BusWidth::Four => seq![Op::WriteBus(BusWidth::Four, nibble)],
    }
}

/// Waiting until the controller has taken a nibble. Polling turns the bus round,
/// makes D7 an input, reads it until it is clear, and turns both back.
pub open spec fn settle(wiring: Wiring) -> Seq<Op> {
    match wiring {
        Wiring::Blind { delay, .. } => seq![Op::Wait(delay)],
        Wiring::Readback => seq![
            Op::Access(BusAccess::Read),
            Op::ListenFlagLine,
            Op::ReadFlagLine,
            Op::Access(BusAccess::Write),
            Op::DriveFlagLine(false),
        ],
    }
}

/// Whether `op` holds D7 as an input: by making it one, or by reading it.
pub open spec fn holds_flag_line(op: Op) -> bool {
    op is ListenFlagLine || op is ReadFlagLine
}

/// What is still done to the pins after `op` has failed. Where `op` held D7 as
/// an input, the bus and D7 are turned back to writing, as they are after a
/// poll that went well. After any other operation nothing is done.
pub open spec fn restoring(op: Op) -> Seq<Op> {
    if holds_flag_line(op) {
        seq![Op::Access(BusAccess::Write), Op::DriveFlagLine(false)]
    } else {
        Seq::empty()
    }
}

/// The transmission of one nibble: present it, strobe Enable once, wait.
pub open spec fn transmission(wiring: Wiring, transfer: Transfer) -> Seq<Op> {
    present(wiring, transfer.nibble) + strobe(transfer.hold) + settle(wiring)
}

/// The transmissions of several nibbles, one after the other.
pub open spec fn transmissions(wiring: Wiring, transfers: Seq<Transfer>) -> Seq<Op>
    decreases transfers.len(),
{
    if transfers.len() == 0 {
        Seq::empty()
    } else {
        transmissions(wiring, transfers.drop_last()) + transmission(wiring, transfers.last())
    }
}

/// A transfer of the nibble that spells `value`.
pub open spec fn transfer_of(value: int, hold: u64) -> Transfer {
    Transfer { nibble: Nibble::of(value), hold }
}

/// The nibbles that bring the controller from whatever state it is in to 4-bit
/// operation with two lines, a 5x8 font, the display on, cleared, and the cursor
/// at home moving right.
///
/// The first three make up the reset: the controller takes each for the upper
/// half of a function set in 8-bit mode, whichever mode it was in. The first two
/// of them are held for the least times that the data sheet allows, which must
/// not be cut short. The fourth switches the interface to four bits. From then
/// on two nibbles make one instruction, high half first: function set, display
/// control, clear display, return home, entry mode.
pub open spec fn init_transfers() -> Seq<Transfer> {
    seq![
        transfer_of(0b0011, RESET_FIRST_MICROS),
        transfer_of(0b0011, RESET_SECOND_MICROS),
        transfer_of(0b0011, HOLD_MICROS),
        transfer_of(0b0010, HOLD_MICROS),
        transfer_of(0b0010, HOLD_MICROS),
        transfer_of(0b1000, HOLD_MICROS),
        transfer_of(0b0000, HOLD_MICROS),
        transfer_of(0b1100, HOLD_MICROS),
        transfer_of(0b0000, HOLD_MICROS),
        transfer_of(0b0001, HOLD_MICROS),
        transfer_of(0b0000, HOLD_MICROS),
        transfer_of(0b0010, HOLD_MICROS),
        transfer_of(0b0000, HOLD_MICROS),
        transfer_of(0b0110, HOLD_MICROS),
    ]
}

/// The transfers for one character: its high nibble, then its low nibble. A
/// character outside 7-bit ASCII has none.
pub open spec fn char_transfers(c: char) -> Seq<Transfer> {
    match encoding(c) {
        Some((high, low)) => seq![
            Transfer { nibble: high, hold: HOLD_MICROS },
            Transfer { nibble: low, hold: HOLD_MICROS },
        ],
        None => Seq::empty(),
    }
}

/// The transfers for a text: those of its characters, in order.
pub open spec fn text_transfers(text: Seq<char>) -> Seq<Transfer>
    decreases text.len(),
{
    if text.len() == 0 {
        Seq::empty()
    } else {
        text_transfers(text.drop_last()) + char_transfers(text.last())
    }
}

/// The whole initialization: select the instruction register once, then send
/// the nibbles of `init_transfers`.
pub open spec fn setup_script(wiring: Wiring) -> Seq<Op> {
    seq![Op::SelectRegister(RegisterMode::Instruction)] + transmissions(wiring, init_transfers())
}

/// Writing a text: select the data register once, then send the nibbles of its
/// characters.
pub open spec fn text_script(wiring: Wiring, text: Seq<char>) -> Seq<Op> {
    seq![Op::SelectRegister(RegisterMode::Data)] + transmissions(wiring, text_transfers(text))
}

/// The levels to write to the bus for `WriteBus(width, nibble)`, topmost line first.
pub fn levels(width: BusWidth, nibble: Nibble) -> (r: Vec<u8>)
    ensures
        r@ == bus_levels(width, nibble),
        r@.len() == width.line_count(),
{
    let mut r: Vec<u8> = Vec::new();
    match width {
        BusWidth::Three => {},
        BusWidth::Four => {
            r.push(level(nibble.b3));
        },
    }
    r.push(level(nibble.b2));
    r.push(level(nibble.b1));
    r.push(level(nibble.b0));
    r
}

/// The level to put on a data line for `bit`.
pub fn level(bit: bool) -> (r: u8)
    ensures
        r == bit_level(bit),
{
    if bit { 1 } else { 0 }
}

/// Selecting the instruction register.
pub fn instruction_register() -> (ops: Vec<Op>)
    ensures
        ops@ == seq![Op::SelectRegister(RegisterMode::Instruction)],
{
    let mut ops: Vec<Op> = Vec::new();
    ops.push(Op::SelectRegister(RegisterMode::Instruction));
    ops
}

/// Selecting the data register.
pub fn data_register() -> (ops: Vec<Op>)
    ensures
        ops@ == seq![Op::SelectRegister(RegisterMode::Data)],
{
    let mut ops: Vec<Op> = Vec::new();
    ops.push(Op::SelectRegister(RegisterMode::Data));
    ops
}

/// One pulse on Enable that lasts `hold` microseconds.
pub fn toggle(hold: u64) -> (ops: Vec<Op>)
    ensures
        ops@ == strobe(hold),
{
    let mut ops: Vec<Op> = Vec::new();
    ops.push(Op::Enable(Signal::Asserted));
    ops.push(Op::Wait(hold));
    ops.push(Op::Enable(Signal::Deasserted));
    ops
}

/// The transmission of one nibble, committed by a pulse of `hold` microseconds.
pub fn send_4(nibble: Nibble, hold: u64, wiring: Wiring) -> (ops: Vec<Op>)
    ensures
        ops@ == transmission(wiring, Transfer { nibble, hold }),
{
    let mut ops: Vec<Op> = Vec::new();
    match wiring.width() {
        BusWidth::Three => {
            ops.push(Op::DriveFlagLine(nibble.b3));
            ops.push(Op::WriteBus(BusWidth::Three, nibble));
        },
        BusWidth::Four => {
            ops.push(Op::WriteBus(BusWidth::Four, nibble));
        },
    }
    let mut pulse = toggle(hold);
    ops.append(&mut pulse);
    match wiring {
        Wiring::Blind { delay, .. } => {
            ops.push(Op::Wait(delay));
        },
        Wiring::Readback => {
            ops.push(Op::Access(BusAccess::Read));
            ops.push(Op::ListenFlagLine);
            ops.push(Op::ReadFlagLine);
            ops.push(Op::Access(BusAccess::Write));
            ops.push(Op::DriveFlagLine(false));
        },
    }
    ops
}

/// The transmissions of `transfers`, one after the other.
pub fn send_all(transfers: &Vec<Transfer>, wiring: Wiring) -> (ops: Vec<Op>)
    ensures
        ops@ == transmissions(wiring, transfers@),
{
    let mut ops: Vec<Op> = Vec::new();
    let mut i: usize = 0;
    while i < transfers.len()
        invariant
            i <= transfers.len(),
            ops@ == transmissions(wiring, transfers@.take(i as int)),
        decreases transfers.len() - i,
    {
        let transfer = transfers[i];
        let mut next = send_4(transfer.nibble, transfer.hold, wiring);
        assert(transfers@.take(i + 1).drop_last() == transfers@.take(i as int));
        ops.append(&mut next);
        i += 1;
    }
    assert(transfers@.take(i as int) == transfers@);
    ops
}

/// The nibbles of the initialization, each with the time for which Enable is
/// held to commit it.
pub fn init_sequence() -> (transfers: Vec<Transfer>)
    ensures
        transfers@ == init_transfers(),
{
    let mut transfers: Vec<Transfer> = Vec::new();
    // Reset, three times over.
    transfers.push(Transfer { nibble: Nibble::low_half(0b0011), hold: RESET_FIRST_MICROS });
    transfers.push(Transfer { nibble: Nibble::low_half(0b0011), hold: RESET_SECOND_MICROS });
    transfers.push(Transfer { nibble: Nibble::low_half(0b0011), hold: HOLD_MICROS });
    // Interface width: four bits.
    transfers.push(Transfer { nibble: Nibble::low_half(0b0010), hold: HOLD_MICROS });
    // Function set: four bits, two lines, 5x8 font.
    transfers.push(Transfer { nibble: Nibble::low_half(0b0010), hold: HOLD_MICROS });
    transfers.push(Transfer { nibble: Nibble::low_half(0b1000), hold: HOLD_MICROS });
    // Display on, cursor off, blink off.
    transfers.push(Transfer { nibble: Nibble::low_half(0b0000), hold: HOLD_MICROS });
    transfers.push(Transfer { nibble: Nibble::low_half(0b1100), hold: HOLD_MICROS });
    // Clear display.
    transfers.push(Transfer { nibble: Nibble::low_half(0b0000), hold: HOLD_MICROS });
    transfers.push(Transfer { nibble: Nibble::low_half(0b0001), hold: HOLD_MICROS });
    // Return home.
    transfers.push(Transfer { nibble: Nibble::low_half(0b0000), hold: HOLD_MICROS });
    transfers.push(Transfer { nibble: Nibble::low_half(0b0010), hold: HOLD_MICROS });
    // Entry mode: move right, no shift.
    transfers.push(Transfer { nibble: Nibble::low_half(0b0000), hold: HOLD_MICROS });
    transfers.push(Transfer { nibble: Nibble::low_half(0b0110), hold: HOLD_MICROS });
    transfers
}

/// The whole initialization of the display.
pub fn setup_lcd(wiring: Wiring) -> (ops: Vec<Op>)
    ensures
        ops@ == setup_script(wiring),
{
    let mut ops = instruction_register();
    let transfers = init_sequence();
    let mut rest = send_all(&transfers, wiring);
    ops.append(&mut rest);
    ops
}

/// The two nibbles of a character, or none where it lies outside 7-bit ASCII.
pub fn char_sequence(c: char) -> (transfers: Vec<Transfer>)
    ensures
        transfers@ == char_transfers(c),
{
    let mut transfers: Vec<Transfer> = Vec::new();
    match encode(c) {
        Some((high, low)) => {
            transfers.push(Transfer { nibble: high, hold: HOLD_MICROS });
            transfers.push(Transfer { nibble: low, hold: HOLD_MICROS });
        },
        None => {},
    }
    transfers
}

/// Sending one character: its high nibble, then its low nibble. A character
/// outside 7-bit ASCII is passed over and nothing is sent for it.
pub fn send_char(c: char, wiring: Wiring) -> (ops: Vec<Op>)
    ensures
        ops@ == transmissions(wiring, char_transfers(c)),
{
    let transfers = char_sequence(c);
    send_all(&transfers, wiring)
}

/// The nibbles of a text, character by character.
pub fn text_sequence(text: &str) -> (transfers: Vec<Transfer>)
    ensures
        transfers@ == text_transfers(text@),
{
    let mut transfers: Vec<Transfer> = Vec::new();
    for c in it: text.chars()
        invariant
            it.seq() == text@,
            transfers@ == text_transfers(text@.take(it.index())),
    {
        assert(text@.take(it.index() + 1).drop_last() == text@.take(it.index()));
        let mut next = char_sequence(c);
        transfers.append(&mut next);
    }
    assert(text@.take(text@.len() as int) == text@);
    transfers
}

/// Writing a text to the display, from wherever the cursor stands.
pub fn send_text_to_lcd(text: &str, wiring: Wiring) -> (ops: Vec<Op>)
    ensures
        ops@ == text_script(wiring, text@),
{
    let mut ops = data_register();
    let transfers = text_sequence(text);
    let mut rest = send_all(&transfers, wiring);
    ops.append(&mut rest);
    ops
}

} // verus!
