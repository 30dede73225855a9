//! The driver and the controller together: what the controller has taken in
//! when the driver is through with the initialization or with a text.

use vstd::prelude::*;
use crate::controller::{
    lemma_received_concat, lemma_released_at, lemma_released_concat, lemma_restoring_received,
    lemma_setup_received, lemma_single_received, lemma_text_received, meant, Lines,
};
use crate::driver::{Action, DriverState, Event, Fault, Status};
use crate::runs::{
    all_busy, lemma_script_fails, lemma_script_runs, performs, register_through, repeated,
    repeats, reports,
};
use crate::script::{
    holds_flag_line, init_transfers, restoring, setup_script, text_script, text_transfers, Op,
};
use crate::signal::RegisterMode;
use crate::wiring::Wiring;

verus! {

/// The register that the driver takes for selected is the one that the
/// register-select line selects, after any script, if it was so before.
pub proof fn lemma_register_mirrored(lines: Lines, script: Seq<Op>)
    ensures
        register_through(lines.register, script) == lines.after_all(script).register,
    decreases script.len(),
{
    if script.len() > 0 {
        lemma_register_mirrored(lines.after(script.first()), script.drop_first());
    }
}

/// Reading D7, however often, latches nothing and leaves the lines as they are.
pub proof fn lemma_reads_received(lines: Lines, count: nat)
    ensures
        lines.received(Seq::new(count, |i: int| Op::ReadFlagLine)).len() == 0,
        lines.after_all(Seq::new(count, |i: int| Op::ReadFlagLine)) == lines,
    decreases count,
{
    let all = Seq::new(count, |i: int| Op::ReadFlagLine);
    if count > 0 {
        assert(all.drop_first() == Seq::new((count - 1) as nat, |i: int| Op::ReadFlagLine));
        lemma_reads_received(lines, (count - 1) as nat);
    }
}

/// Repeating the reads of D7 changes nothing of what the controller latches,
/// nor of how the lines are left.
pub proof fn lemma_repeated_received(lines: Lines, script: Seq<Op>, busy: Seq<Seq<u8>>)
    requires
        busy.len() == script.len(),
    ensures
        lines.received(repeated(script, busy)) == lines.received(script),
        lines.after_all(repeated(script, busy)) == lines.after_all(script),
    decreases script.len(),
{
    if script.len() > 0 {
        let op = script.first();
        let here = repeats(op, busy.first());
        let there = repeated(script.drop_first(), busy.drop_first());
        lemma_received_concat(lines, here, there);
        if op is ReadFlagLine {
            lemma_reads_received(lines, busy.first().len() + 1);
        } else {
            lemma_single_received(lines, op);
        }
        lemma_repeated_received(lines.after(op), script.drop_first(), busy.drop_first());
    }
}

/// Reading D7 again and again, with Enable released, leaves it released at
/// every read.
pub proof fn lemma_reads_released(lines: Lines, count: nat)
    requires
        lines.enable is Deasserted,
    ensures
        lines.released_at_polls(Seq::new(count, |i: int| Op::ReadFlagLine)),
    decreases count,
{
    let all = Seq::new(count, |i: int| Op::ReadFlagLine);
    if count > 0 {
        assert(all.drop_first() == Seq::new((count - 1) as nat, |i: int| Op::ReadFlagLine));
        lemma_reads_released(lines, (count - 1) as nat);
    }
}

/// Where Enable is released at the polls of a script, it is so too when the
/// reads of D7 are repeated.
pub proof fn lemma_repeated_released(lines: Lines, script: Seq<Op>, busy: Seq<Seq<u8>>)
    requires
        busy.len() == script.len(),
        lines.released_at_polls(script),
    ensures
        lines.released_at_polls(repeated(script, busy)),
    decreases script.len(),
{
    if script.len() > 0 {
        let op = script.first();
        let here = repeats(op, busy.first());
        let there = repeated(script.drop_first(), busy.drop_first());
        lemma_released_concat(lines, here, there);
        if op is ReadFlagLine {
            lemma_reads_released(lines, busy.first().len() + 1);
            lemma_reads_received(lines, busy.first().len() + 1);
        } else {
            lemma_single_received(lines, op);
        }
        lemma_repeated_released(lines.after(op), script.drop_first(), busy.drop_first());
    }
}

/// The initialization from end to end. On pins in working order, whatever the
/// wiring and however long the controller shows busy, the driver hands out the
/// operations of the initialization and then is through; performing them makes
/// the controller latch the nibbles of the handshake, each once and in order,
/// as instructions; the lines are left at rest; and the driver ends at rest
/// with the instruction register taken for selected, as it is.
pub proof fn lemma_setup_runs(
    start: DriverState,
    lines: Lines,
    wiring: Wiring,
    busy: Seq<Seq<u8>>,
)
    requires
        start.wf(),
        start.status is Idle,
        lines.at_rest(),
        busy.len() == setup_script(wiring).len(),
        all_busy(busy),
    ensures
        ({
            let script = setup_script(wiring);
            let begun = start.begin(script);
            let ended = begun.0.run(reports(script, busy));
            &&& seq![begun.1] + ended.1 == performs(repeated(script, busy)) + seq![
                Action::Finished,
            ]
            &&& lines.received(repeated(script, busy)) == meant(
                Some(RegisterMode::Instruction),
                init_transfers(),
            )
            &&& ended.0.status is Idle
            &&& ended.0.register == Some(RegisterMode::Instruction)
            &&& lines.after_all(repeated(script, busy)).register == ended.0.register
            &&& lines.after_all(repeated(script, busy)).at_rest()
        }),
{
    let script = setup_script(wiring);
    lemma_script_runs(start, script, busy);
    lemma_repeated_received(lines, script, busy);
    lemma_setup_received(lines, wiring);
    lemma_register_mirrored(Lines { register: start.register, ..lines }, script);
    lemma_setup_received(Lines { register: start.register, ..lines }, wiring);
}

/// Writing a text from end to end. On pins in working order, whatever the
/// wiring and however long the controller shows busy, the driver hands out the
/// operations for the text and then is through; performing them makes the
/// controller latch the high and then the low nibble of each ASCII character,
/// in the order of the text, as data; the lines are left at rest; and the
/// driver ends at rest with the data register taken for selected, as it is.
pub proof fn lemma_text_runs(
    start: DriverState,
    lines: Lines,
    wiring: Wiring,
    text: Seq<char>,
    busy: Seq<Seq<u8>>,
)
    requires
        start.wf(),
        start.status is Idle,
        lines.at_rest(),
        busy.len() == text_script(wiring, text).len(),
        all_busy(busy),
    ensures
        ({
            let script = text_script(wiring, text);
            let begun = start.begin(script);
            let ended = begun.0.run(reports(script, busy));
            &&& seq![begun.1] + ended.1 == performs(repeated(script, busy)) + seq![
                Action::Finished,
            ]
            &&& lines.received(repeated(script, busy)) == meant(
                Some(RegisterMode::Data),
                text_transfers(text),
            )
            &&& ended.0.status is Idle
            &&& ended.0.register == Some(RegisterMode::Data)
            &&& lines.after_all(repeated(script, busy)).register == ended.0.register
            &&& lines.after_all(repeated(script, busy)).at_rest()
        }),
{
    let script = text_script(wiring, text);
    lemma_script_runs(start, script, busy);
    lemma_repeated_received(lines, script, busy);
    lemma_text_received(lines, wiring, text);
    lemma_register_mirrored(Lines { register: start.register, ..lines }, script);
    lemma_text_received(Lines { register: start.register, ..lines }, wiring, text);
}

/// What the controller latches over the beginning of a script is the beginning
/// of what it latches over the whole.
pub proof fn lemma_received_prefix(lines: Lines, script: Seq<Op>, done: int)
    requires
        0 <= done <= script.len(),
    ensures
        lines.received(script.take(done)).is_prefix_of(lines.received(script)),
{
    assert(script == script.take(done) + script.skip(done));
    lemma_received_concat(lines, script.take(done), script.skip(done));
}

/// A failure during the initialization, after `done` operations went well. The
/// driver has handed out those and the one that failed, and none of what was
/// to follow. Where the failure struck while D7 was held as an input, the
/// driver has the bus and D7 turned back to writing before it aborts, and with
/// those two operations performed the lines are at rest, in write mode, as they
/// are between transmissions; anywhere else it aborts at once. Either way the
/// controller has latched the first nibbles of the handshake, as far as it
/// got, and none out of turn.
pub proof fn lemma_setup_fails(
    start: DriverState,
    lines: Lines,
    wiring: Wiring,
    busy: Seq<Seq<u8>>,
    done: int,
    answers: Seq<Event>,
    after: Seq<Event>,
)
    requires
        start.wf(),
        start.status is Idle,
        lines.at_rest(),
        busy.len() == setup_script(wiring).len(),
        all_busy(busy),
        0 <= done < repeated(setup_script(wiring), busy).len(),
        answers.len() == restoring(repeated(setup_script(wiring), busy)[done]).len(),
    ensures
        ({
            let script = setup_script(wiring);
            let begun = start.begin(script);
            let ended = begun.0.run(
                reports(script, busy).take(done) + seq![Event::Failed] + answers + after,
            );
            let failed = repeated(script, busy)[done];
            let performed = repeated(script, busy).take(done) + restoring(failed);
            &&& seq![begun.1] + ended.1 == performs(repeated(script, busy).take(done + 1))
                + performs(restoring(failed)) + Seq::new(
                after.len() + 1,
                |i: int| Action::Abort(Fault::Io),
            )
            &&& ended.0.status == Status::Halted(Fault::Io)
            &&& lines.received(performed).is_prefix_of(
                meant(Some(RegisterMode::Instruction), init_transfers()),
            )
            &&& holds_flag_line(failed) ==> lines.after_all(performed).access is Write
            &&& holds_flag_line(failed) ==> lines.after_all(performed).flag_driven
            &&& holds_flag_line(failed) ==> lines.after_all(performed).at_rest()
        }),
{
    let script = setup_script(wiring);
    let gone_well = repeated(script, busy).take(done);
    lemma_script_fails(start, script, busy, done, answers, after);
    lemma_received_prefix(lines, repeated(script, busy), done);
    lemma_repeated_received(lines, script, busy);
    lemma_setup_received(lines, wiring);
    lemma_restoring_received(lines, gone_well, repeated(script, busy)[done]);
    if holds_flag_line(repeated(script, busy)[done]) {
        lemma_repeated_released(lines, script, busy);
        lemma_released_at(lines, repeated(script, busy), done);
    }
}

/// A failure while a text is written, after `done` operations went well. The
/// driver has handed out those and the one that failed, and none of what was
/// to follow. Where the failure struck while D7 was held as an input, the
/// driver has the bus and D7 turned back to writing before it aborts, and with
/// those two operations performed the lines are at rest, in write mode, as they
/// are between transmissions; anywhere else it aborts at once. Either way the
/// controller has latched the first nibbles of the text, as far as it got, and
/// none of what follows: what was written stays and nothing else is written.
pub proof fn lemma_text_fails(
    start: DriverState,
    lines: Lines,
    wiring: Wiring,
    text: Seq<char>,
    busy: Seq<Seq<u8>>,
    done: int,
    answers: Seq<Event>,
    after: Seq<Event>,
)
    requires
        start.wf(),
        start.status is Idle,
        lines.at_rest(),
        busy.len() == text_script(wiring, text).len(),
        all_busy(busy),
        0 <= done < repeated(text_script(wiring, text), busy).len(),
        answers.len() == restoring(repeated(text_script(wiring, text), busy)[done]).len(),
    ensures
        ({
            let script = text_script(wiring, text);
            let begun = start.begin(script);
            let ended = begun.0.run(
                reports(script, busy).take(done) + seq![Event::Failed] + answers + after,
            );
            let failed = repeated(script, busy)[done];
            let performed = repeated(script, busy).take(done) + restoring(failed);
            &&& seq![begun.1] + ended.1 == performs(repeated(script, busy).take(done + 1))
                + performs(restoring(failed)) + Seq::new(
                after.len() + 1,
                |i: int| Action::Abort(Fault::Io),
            )
            &&& ended.0.status == Status::Halted(Fault::Io)
            &&& lines.received(performed).is_prefix_of(
                meant(Some(RegisterMode::Data), text_transfers(text)),
            )
            &&& holds_flag_line(failed) ==> lines.after_all(performed).access is Write
            &&& holds_flag_line(failed) ==> lines.after_all(performed).flag_driven
            &&& holds_flag_line(failed) ==> lines.after_all(performed).at_rest()
        }),
{
    let script = text_script(wiring, text);
    let gone_well = repeated(script, busy).take(done);
    lemma_script_fails(start, script, busy, done, answers, after);
    lemma_received_prefix(lines, repeated(script, busy), done);
    lemma_repeated_received(lines, script, busy);
    lemma_text_received(lines, wiring, text);
    lemma_restoring_received(lines, gone_well, repeated(script, busy)[done]);
    if holds_flag_line(repeated(script, busy)[done]) {
        lemma_repeated_released(lines, script, busy);
        lemma_released_at(lines, repeated(script, busy), done);
    }
}

} // verus!
