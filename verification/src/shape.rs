//! What holds of every script, whatever is sent.
//!
//! These are laws of scripts as they are laid down, from the first operation
//! to the last. What the driver performs of a script when an operation fails
//! on the way is another matter, and stated with the laws of its runs.

use vstd::prelude::*;
use crate::nibble::is_ascii;
use crate::script::{
    init_transfers, setup_script, text_script, text_transfers, transmission, transmissions, Op,
    Transfer,
};
use crate::signal::{BusAccess, RegisterMode, Signal};
use crate::wiring::Wiring;

verus! {

/// How often `op` stands in `script`.
pub open spec fn occurrences(script: Seq<Op>, op: Op) -> nat
    decreases script.len(),
{
    if script.len() == 0 {
        0
    } else {
        occurrences(script.drop_last(), op) + if script.last() == op {
            1nat
        } else {
            0nat
        }
    }
}

/// An operation stands in two scripts joined as often as in both together.
pub proof fn lemma_occurrences_concat(first: Seq<Op>, second: Seq<Op>, op: Op)
    ensures
        occurrences(first + second, op) == occurrences(first, op) + occurrences(second, op),
    decreases second.len(),
{
    if second.len() > 0 {
        assert((first + second).drop_last() == first + second.drop_last());
        lemma_occurrences_concat(first, second.drop_last(), op);
    }
}

/// The number of characters of 7-bit ASCII in a text.
pub open spec fn ascii_count(text: Seq<char>) -> nat
    decreases text.len(),
{
    if text.len() == 0 {
        0
    } else {
        ascii_count(text.drop_last()) + if is_ascii(text.last()) {
            1nat
        } else {
            0nat
        }
    }
}

/// A text is sent as two nibbles for each of its ASCII characters and none for
/// any other.
pub proof fn lemma_two_nibbles_per_character(text: Seq<char>)
    ensures
        text_transfers(text).len() == 2 * ascii_count(text),
    decreases text.len(),
{
    if text.len() > 0 {
        lemma_two_nibbles_per_character(text.drop_last());
    }
}

/// The script of a transmission asserts Enable exactly once and releases it
/// exactly once.
pub proof fn lemma_one_strobe(wiring: Wiring, transfer: Transfer)
    ensures
        occurrences(transmission(wiring, transfer), Op::Enable(Signal::Asserted)) == 1,
        occurrences(transmission(wiring, transfer), Op::Enable(Signal::Deasserted)) == 1,
{
    reveal_with_fuel(occurrences, 11);
}

/// A script asserts Enable exactly once, and releases it exactly once, for
/// each nibble that it sends.
pub proof fn lemma_one_strobe_per_nibble(wiring: Wiring, transfers: Seq<Transfer>)
    ensures
        occurrences(transmissions(wiring, transfers), Op::Enable(Signal::Asserted))
            == transfers.len(),
        occurrences(transmissions(wiring, transfers), Op::Enable(Signal::Deasserted))
            == transfers.len(),
    decreases transfers.len(),
{
    if transfers.len() > 0 {
        let before = transmissions(wiring, transfers.drop_last());
        let last = transmission(wiring, transfers.last());
        lemma_one_strobe_per_nibble(wiring, transfers.drop_last());
        lemma_one_strobe(wiring, transfers.last());
        lemma_occurrences_concat(before, last, Op::Enable(Signal::Asserted));
        lemma_occurrences_concat(before, last, Op::Enable(Signal::Deasserted));
    }
}

/// Whether every assertion of Enable in `script` is followed, in the script,
/// by a wait and then by its release.
pub open spec fn strobes_complete(script: Seq<Op>) -> bool {
    forall|i: int|
        0 <= i < script.len() && #[trigger] script[i] == Op::Enable(Signal::Asserted) ==> {
            &&& i + 2 < script.len()
            &&& script[i + 1] is Wait
            &&& script[i + 2] == Op::Enable(Signal::Deasserted)
        }
}

/// Whether every read of D7 in `script` stands, in the script, between the
/// operations that turn the bus and D7 round and those that turn both back.
/// This speaks of the script as written, not of a run of it: a run that fails
/// at the read does not go on in the script.
pub open spec fn polls_enclosed(script: Seq<Op>) -> bool {
    forall|i: int|
        0 <= i < script.len() && #[trigger] script[i] is ReadFlagLine ==> {
            &&& 2 <= i
            &&& script[i - 2] == Op::Access(BusAccess::Read)
            &&& script[i - 1] == Op::ListenFlagLine
            &&& i + 2 < script.len()
            &&& script[i + 1] == Op::Access(BusAccess::Write)
            &&& script[i + 2] == Op::DriveFlagLine(false)
        }
}

/// Whether no operation of `script` selects a register.
pub open spec fn selects_none(script: Seq<Op>) -> bool {
    forall|i: int| 0 <= i < script.len() ==> !(#[trigger] script[i] is SelectRegister)
}

/// Whether no operation of `script` reads D7.
pub open spec fn reads_none(script: Seq<Op>) -> bool {
    forall|i: int| 0 <= i < script.len() ==> !(#[trigger] script[i] is ReadFlagLine)
}

/// Two scripts with complete strobes, joined, have complete strobes.
pub proof fn lemma_strobes_complete_concat(first: Seq<Op>, second: Seq<Op>)
    requires
        strobes_complete(first),
        strobes_complete(second),
    ensures
        strobes_complete(first + second),
{
    let joined = first + second;
    assert forall|i: int|
        0 <= i < joined.len() && #[trigger] joined[i] == Op::Enable(Signal::Asserted) implies {
        &&& i + 2 < joined.len()
        &&& joined[i + 1] is Wait
        &&& joined[i + 2] == Op::Enable(Signal::Deasserted)
    } by {}
}

/// Two scripts with enclosed polls, joined, have enclosed polls.
pub proof fn lemma_polls_enclosed_concat(first: Seq<Op>, second: Seq<Op>)
    requires
        polls_enclosed(first),
        polls_enclosed(second),
    ensures
        polls_enclosed(first + second),
{
    let joined = first + second;
    assert forall|i: int| 0 <= i < joined.len() && #[trigger] joined[i] is ReadFlagLine implies {
        &&& 2 <= i
        &&& joined[i - 2] == Op::Access(BusAccess::Read)
        &&& joined[i - 1] == Op::ListenFlagLine
        &&& i + 2 < joined.len()
        &&& joined[i + 1] == Op::Access(BusAccess::Write)
        &&& joined[i + 2] == Op::DriveFlagLine(false)
    } by {}
}

/// Joined scripts select no register where neither does.
pub proof fn lemma_selects_none_concat(first: Seq<Op>, second: Seq<Op>)
    requires
        selects_none(first),
        selects_none(second),
    ensures
        selects_none(first + second),
{
}

/// Joined scripts read nothing where neither does.
pub proof fn lemma_reads_none_concat(first: Seq<Op>, second: Seq<Op>)
    requires
        reads_none(first),
        reads_none(second),
    ensures
        reads_none(first + second),
{
}

/// The script of a transmission releases Enable after asserting it, has every
/// poll followed by the operations that turn the bus and D7 back to writing,
/// and selects no register. Where nothing is read back it never reads D7.
pub proof fn lemma_transmission_shape(wiring: Wiring, transfer: Transfer)
    ensures
        strobes_complete(transmission(wiring, transfer)),
        polls_enclosed(transmission(wiring, transfer)),
        selects_none(transmission(wiring, transfer)),
        wiring is Blind ==> reads_none(transmission(wiring, transfer)),
{
}

/// However many nibbles a script sends, as it is written: every assertion of
/// Enable is followed by its release, every poll of the busy flag is followed
/// by the operations that turn the bus and D7 back to writing, and no register
/// is selected on the way. Where nothing is read back, D7 is never read. A run
/// that goes through the whole script performs all of this; what a run does
/// that fails on the way is stated with the laws of runs.
pub proof fn lemma_transmissions_shape(wiring: Wiring, transfers: Seq<Transfer>)
    ensures
        strobes_complete(transmissions(wiring, transfers)),
        polls_enclosed(transmissions(wiring, transfers)),
        selects_none(transmissions(wiring, transfers)),
        wiring is Blind ==> reads_none(transmissions(wiring, transfers)),
    decreases transfers.len(),
{
    if transfers.len() > 0 {
        let before = transmissions(wiring, transfers.drop_last());
        let last = transmission(wiring, transfers.last());
        lemma_transmissions_shape(wiring, transfers.drop_last());
        lemma_transmission_shape(wiring, transfers.last());
        lemma_strobes_complete_concat(before, last);
        lemma_polls_enclosed_concat(before, last);
        lemma_selects_none_concat(before, last);
        if wiring is Blind {
            lemma_reads_none_concat(before, last);
        }
    }
}

/// The script of the initialization selects the instruction register first
/// and no register afterwards; as written, its strobes are complete and its
/// polls enclosed.
pub proof fn lemma_setup_shape(wiring: Wiring)
    ensures
        setup_script(wiring)[0] == Op::SelectRegister(RegisterMode::Instruction),
        selects_none(setup_script(wiring).skip(1)),
        strobes_complete(setup_script(wiring)),
        polls_enclosed(setup_script(wiring)),
        wiring is Blind ==> reads_none(setup_script(wiring)),
{
    let rest = transmissions(wiring, init_transfers());
    let head = seq![Op::SelectRegister(RegisterMode::Instruction)];
    lemma_transmissions_shape(wiring, init_transfers());
    lemma_strobes_complete_concat(head, rest);
    lemma_polls_enclosed_concat(head, rest);
    if wiring is Blind {
        lemma_reads_none_concat(head, rest);
    }
}

/// The script for a text selects the data register first and no register
/// afterwards, whatever the text; as written, its strobes are complete and its
/// polls enclosed.
pub proof fn lemma_text_shape(wiring: Wiring, text: Seq<char>)
    ensures
        text_script(wiring, text)[0] == Op::SelectRegister(RegisterMode::Data),
        selects_none(text_script(wiring, text).skip(1)),
        strobes_complete(text_script(wiring, text)),
        polls_enclosed(text_script(wiring, text)),
        wiring is Blind ==> reads_none(text_script(wiring, text)),
{
    let rest = transmissions(wiring, text_transfers(text));
    let head = seq![Op::SelectRegister(RegisterMode::Data)];
    lemma_transmissions_shape(wiring, text_transfers(text));
    lemma_strobes_complete_concat(head, rest);
    lemma_polls_enclosed_concat(head, rest);
    if wiring is Blind {
        lemma_reads_none_concat(head, rest);
    }
}

} // verus!
