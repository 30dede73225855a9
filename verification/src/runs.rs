//! What holds of every run of the driver: how it answers the reports it is
//! given, whatever script it is on.

use vstd::prelude::*;
use crate::driver::{Action, DriverState, Event, Fault, Status};
use crate::nibble::Nibble;
use crate::script::{holds_flag_line, restoring, transmission, Op, Transfer};
use crate::signal::{reads_busy, BusAccess, RegisterMode, Signal};
use crate::wiring::{BusWidth, Wiring};

verus! {

/// `count` reports of success.
pub open spec fn dones(count: nat) -> Seq<Event> {
    Seq::new(count, |i: int| Event::Done)
}

/// The reports of reading these levels from D7, one after the other.
pub open spec fn readings(levels: Seq<u8>) -> Seq<Event> {
    Seq::new(levels.len(), |i: int| Event::Level(levels[i]))
}

/// The actions that hand out these operations, one after the other.
pub open spec fn performs(ops: Seq<Op>) -> Seq<Action> {
    Seq::new(ops.len(), |i: int| Action::Perform(ops[i]))
}

/// `count` reads of D7.
pub open spec fn reads(count: nat) -> Seq<Action> {
    Seq::new(count, |i: int| Action::Perform(Op::ReadFlagLine))
}

/// The register that is selected after `ops` were performed, given the one
/// that was selected before.
pub open spec fn register_through(register: Option<RegisterMode>, ops: Seq<Op>) -> Option<
    RegisterMode,
>
    decreases ops.len(),
{
    if ops.len() == 0 {
        register
    } else {
        register_through(
            match ops.first() {
                Op::SelectRegister(mode) => Some(mode),
                _ => register,
            },
            ops.drop_first(),
        )
    }
}

/// What pins in working order report on one operation: success, or for a read
/// of D7 the levels it showed, busy for each of `busy` and then clear.
pub open spec fn report(op: Op, busy: Seq<u8>) -> Seq<Event> {
    if op is ReadFlagLine {
        readings(busy.push(0))
    } else {
        seq![Event::Done]
    }
}

/// What pins in working order report while a script is performed. `busy` holds,
/// for each operation, the busy levels that D7 shows if the operation reads it.
pub open spec fn reports(script: Seq<Op>, busy: Seq<Seq<u8>>) -> Seq<Event>
    decreases script.len(),
{
    if script.len() == 0 {
        Seq::empty()
    } else {
        report(script.first(), busy.first()) + reports(script.drop_first(), busy.drop_first())
    }
}

/// An operation as often as it is to be performed: once, or for a read of D7
/// once and then once more for each level that showed busy.
pub open spec fn repeats(op: Op, busy: Seq<u8>) -> Seq<Op> {
    if op is ReadFlagLine {
        Seq::new(busy.len() + 1, |i: int| Op::ReadFlagLine)
    } else {
        seq![op]
    }
}

/// A script with each read of D7 repeated for as long as the line shows busy.
pub open spec fn repeated(script: Seq<Op>, busy: Seq<Seq<u8>>) -> Seq<Op>
    decreases script.len(),
{
    if script.len() == 0 {
        Seq::empty()
    } else {
        repeats(script.first(), busy.first()) + repeated(script.drop_first(), busy.drop_first())
    }
}

/// Whether none of these reports is a failure.
pub open spec fn unfailing(events: Seq<Event>) -> bool {
    forall|i: int| 0 <= i < events.len() ==> !(#[trigger] events[i] is Failed)
}

/// Whether every level in `busy` reads busy.
pub open spec fn all_busy(busy: Seq<Seq<u8>>) -> bool {
    forall|i: int, j: int|
        0 <= i < busy.len() && 0 <= j < busy[i].len() ==> reads_busy(#[trigger] busy[i][j])
}

/// Any number of reports leaves a well-formed driver well formed, and each is
/// answered with one action.
pub proof fn lemma_run_keeps_wf(state: DriverState, events: Seq<Event>)
    requires
        state.wf(),
    ensures
        state.run(events).0.wf(),
        state.run(events).1.len() == events.len(),
    decreases events.len(),
{
    if events.len() > 0 {
        lemma_run_keeps_wf(state.step(events.first()).0, events.drop_first());
    }
}

/// Taking a single report.
pub proof fn lemma_run_one(state: DriverState, event: Event)
    ensures
        state.run(seq![event]).0 == state.step(event).0,
        state.run(seq![event]).1 == seq![state.step(event).1],
{
    assert(state.step(event).0.run(seq![event].drop_first()).1.len() == 0);
}

/// Taking one batch of reports and then another is taking them all in a row.
pub proof fn lemma_run_concat(state: DriverState, first: Seq<Event>, second: Seq<Event>)
    ensures
        state.run(first + second).0 == state.run(first).0.run(second).0,
        state.run(first + second).1 == state.run(first).1 + state.run(first).0.run(second).1,
    decreases first.len(),
{
    if first.len() > 0 {
        assert((first + second).drop_first() == first.drop_first() + second);
        lemma_run_concat(state.step(first.first()).0, first.drop_first(), second);
    }
}

/// A driver that has stopped stays as it is, and answers every report with the
/// fault it stopped on.
pub proof fn lemma_halted_stays(state: DriverState, fault: Fault, events: Seq<Event>)
    requires
        state.status == Status::Halted(fault),
    ensures
        state.run(events).0 == state,
        state.run(events).1 == Seq::new(events.len(), |i: int| Action::Abort(fault)),
    decreases events.len(),
{
    if events.len() > 0 {
        lemma_halted_stays(state, fault, events.drop_first());
    }
}

/// A failure while a script is under way gives the script up: none of its
/// operations that were still to come is handed out. Where the operation that
/// failed held D7 as an input, the two operations that turn the bus and D7
/// back to writing are handed out first, whatever is reported of them. Then,
/// and after any other operation at once, the driver answers with an abort,
/// and so it answers whatever is reported afterwards. `answers` are the reports
/// on the operations that turn back.
pub proof fn lemma_failure_aborts(
    state: DriverState,
    before: Seq<Event>,
    answers: Seq<Event>,
    after: Seq<Event>,
)
    requires
        state.wf(),
        state.run(before).0.status is Running,
        answers.len() == restoring(state.run(before).0.current()).len(),
    ensures
        state.run(before + seq![Event::Failed] + answers + after).1 == state.run(before).1
            + performs(restoring(state.run(before).0.current())) + Seq::new(
            after.len() + 1,
            |i: int| Action::Abort(Fault::Io),
        ),
        state.run(before + seq![Event::Failed] + answers + after).0.status == Status::Halted(
            Fault::Io,
        ),
{
    let reached = state.run(before).0;
    let failed = seq![Event::Failed];
    let rest = answers + after;
    assert(before + failed + answers + after == before + (failed + rest));
    lemma_run_concat(state, before, failed + rest);
    lemma_run_concat(reached, failed, rest);
    lemma_run_one(reached, Event::Failed);
    let first = reached.step(Event::Failed).0;
    if holds_flag_line(reached.current()) {
        let second = first.step(answers[0]).0;
        let third = second.step(answers[1]).0;
        assert(rest == seq![answers[0]] + (seq![answers[1]] + after));
        lemma_run_concat(first, seq![answers[0]], seq![answers[1]] + after);
        lemma_run_one(first, answers[0]);
        lemma_run_concat(second, seq![answers[1]], after);
        lemma_run_one(second, answers[1]);
        lemma_halted_stays(third, Fault::Io, after);
    } else {
        lemma_halted_stays(first, Fault::Io, after);
    }
}

/// While the operations handed out are no reads and the script is not through,
/// each report of success is answered with the next operation of the script.
pub proof fn lemma_run_dones(state: DriverState, count: nat)
    requires
        state.status is Running,
        0 <= state.cursor,
        state.cursor + count < state.script.len(),
        forall|i: int|
            state.cursor <= i < state.cursor + count ==> !(#[trigger] state.script[i]
                is ReadFlagLine),
    ensures
        state.run(dones(count)).0 == (DriverState {
            script: state.script,
            cursor: state.cursor + count,
            status: Status::Running,
            register: register_through(
                state.register,
                state.script.subrange(state.cursor, state.cursor + count),
            ),
        }),
        state.run(dones(count)).1 == performs(
            state.script.subrange(state.cursor + 1, state.cursor + count + 1),
        ),
    decreases count,
{
    if count > 0 {
        let done = state.script.subrange(state.cursor, state.cursor + count);
        assert(dones(count).drop_first() == dones((count - 1) as nat));
        lemma_run_dones(state.step(Event::Done).0, (count - 1) as nat);
        assert(done.drop_first() == state.script.subrange(
            state.cursor + 1,
            state.cursor + count,
        ));
    }
}

/// For as long as D7 reads busy the driver asks for the same read again and
/// stays where it is.
pub proof fn lemma_busy_repeats(state: DriverState, busy: Seq<u8>)
    requires
        state.wf(),
        state.status is Running,
        state.current() is ReadFlagLine,
        forall|i: int| 0 <= i < busy.len() ==> reads_busy(#[trigger] busy[i]),
    ensures
        state.run(readings(busy)).0 == state,
        state.run(readings(busy)).1 == reads(busy.len()),
    decreases busy.len(),
{
    if busy.len() > 0 {
        assert(readings(busy).drop_first() == readings(busy.drop_first()));
        lemma_busy_repeats(state, busy.drop_first());
    }
}

/// Where a read of D7 has been handed out and the line reads busy a number of
/// times and then clear, the driver asks for the read once more for each busy
/// reading, and goes on with the script at the clear one.
pub proof fn lemma_poll_until_clear(state: DriverState, busy: Seq<u8>, clear: u8)
    requires
        state.wf(),
        state.status is Running,
        state.current() is ReadFlagLine,
        forall|i: int| 0 <= i < busy.len() ==> reads_busy(#[trigger] busy[i]),
        !reads_busy(clear),
    ensures
        state.run(readings(busy.push(clear))).0 == state.advance().0,
        state.run(readings(busy.push(clear))).1 == reads(busy.len()) + seq![state.advance().1],
{
    let last = seq![Event::Level(clear)];
    assert(readings(busy.push(clear)) == readings(busy) + last);
    lemma_run_concat(state, readings(busy), last);
    lemma_busy_repeats(state, busy);
    lemma_run_one(state, Event::Level(clear));
}

/// Operations that select no register leave the selected register as it was.
pub proof fn lemma_register_kept(register: Option<RegisterMode>, ops: Seq<Op>)
    requires
        forall|i: int| 0 <= i < ops.len() ==> !(#[trigger] ops[i] is SelectRegister),
    ensures
        register_through(register, ops) == register,
    decreases ops.len(),
{
    if ops.len() > 0 {
        lemma_register_kept(register, ops.drop_first());
    }
}

/// The transmission of a nibble where the busy flag is read back, on a line
/// that reads busy for a number of reads and clear at the next: the nibble is
/// presented and committed by one strobe, the bus is turned round, D7 is read
/// once for each busy reading and once more, and the bus and D7 are turned back
/// to writing before the transmission ends. The driver is then as it was.
pub proof fn lemma_polled_transmission(
    start: DriverState,
    nibble: Nibble,
    hold: u64,
    busy: Seq<u8>,
    clear: u8,
)
    requires
        start.wf(),
        start.status is Idle,
        forall|i: int| 0 <= i < busy.len() ==> reads_busy(#[trigger] busy[i]),
        !reads_busy(clear),
    ensures
        ({
            let script = transmission(Wiring::Readback, Transfer { nibble, hold });
            let begun = start.begin(script);
            let ended = begun.0.run(dones(7) + readings(busy.push(clear)) + dones(2));
            &&& begun.1 == Action::Perform(Op::DriveFlagLine(nibble.b3))
            &&& ended.1 == seq![
                Action::Perform(Op::WriteBus(BusWidth::Three, nibble)),
                Action::Perform(Op::Enable(Signal::Asserted)),
                Action::Perform(Op::Wait(hold)),
                Action::Perform(Op::Enable(Signal::Deasserted)),
                Action::Perform(Op::Access(BusAccess::Read)),
                Action::Perform(Op::ListenFlagLine),
            ] + reads(busy.len() + 1) + seq![
                Action::Perform(Op::Access(BusAccess::Write)),
                Action::Perform(Op::DriveFlagLine(false)),
                Action::Finished,
            ]
            &&& ended.0 == start
        }),
{
    let script = transmission(Wiring::Readback, Transfer { nibble, hold });
    let polls = readings(busy.push(clear));
    let s0 = start.begin(script).0;
    lemma_run_dones(s0, 7);
    let s7 = s0.run(dones(7)).0;
    lemma_register_kept(start.register, script.subrange(0, 7));
    lemma_poll_until_clear(s7, busy, clear);
    let s8 = s7.run(polls).0;
    lemma_run_dones(s8, 1);
    let s9 = s8.run(dones(1)).0;
    lemma_register_kept(start.register, script.subrange(8, 9));
    lemma_run_one(s9, Event::Done);
    assert(dones(2) == dones(1) + seq![Event::Done]);
    lemma_run_concat(s8, dones(1), seq![Event::Done]);
    lemma_run_concat(s0, dones(7), polls);
    lemma_run_concat(s0, dones(7) + polls, dones(2));
    let ended = s0.run(dones(7) + polls + dones(2));
    assert(ended.0.script == start.script);
}

/// From any place in a script, with pins in working order, the driver hands
/// out what is left of the script, each operation in its turn, and comes to
/// rest after the last.
pub proof fn lemma_run_rest(state: DriverState, busy: Seq<Seq<u8>>)
    requires
        state.wf(),
        state.status is Running,
        busy.len() == state.script.len() - state.cursor,
        all_busy(busy),
    ensures
        seq![Action::Perform(state.current())] + state.run(
            reports(state.script.skip(state.cursor), busy),
        ).1 == performs(repeated(state.script.skip(state.cursor), busy)) + seq![
            Action::Finished,
        ],
        state.run(reports(state.script.skip(state.cursor), busy)).0 == (DriverState {
            script: Seq::empty(),
            cursor: 0,
            status: Status::Idle,
            register: register_through(state.register, state.script.skip(state.cursor)),
        }),
    decreases state.script.len() - state.cursor,
{
    let rest = state.script.skip(state.cursor);
    let later = state.script.skip(state.cursor + 1);
    let op = state.current();
    assert(rest.drop_first() == later);
    let here = report(op, busy.first());
    let there = reports(later, busy.drop_first());
    lemma_run_concat(state, here, there);
    let next = state.advance();
    if op is ReadFlagLine {
        lemma_poll_until_clear(state, busy.first(), 0);
    } else {
        lemma_run_one(state, Event::Done);
    }
    assert(register_through(state.register, rest) == register_through(
        state.register_after(),
        later,
    ));
    if state.cursor + 1 < state.script.len() {
        lemma_run_rest(next.0, busy.drop_first());
        assert(seq![Action::Perform(op)] + state.run(here + there).1 == performs(
            repeats(op, busy.first()),
        ) + (seq![next.1] + next.0.run(there).1));
    } else {
        assert(repeated(later, busy.drop_first()).len() == 0);
    }
}

/// With pins in working order the driver performs a script from its first
/// operation to its last, each in its turn and none twice but for the reads of
/// D7, which it repeats for as long as the line shows busy. It ends at rest,
/// with the register selected that the script selected last.
pub proof fn lemma_script_runs(start: DriverState, script: Seq<Op>, busy: Seq<Seq<u8>>)
    requires
        start.wf(),
        start.status is Idle,
        script.len() > 0,
        busy.len() == script.len(),
        all_busy(busy),
    ensures
        seq![start.begin(script).1] + start.begin(script).0.run(reports(script, busy)).1
            == performs(repeated(script, busy)) + seq![Action::Finished],
        start.begin(script).0.run(reports(script, busy)).0 == (DriverState {
            script: Seq::empty(),
            cursor: 0,
            status: Status::Idle,
            register: register_through(start.register, script),
        }),
{
    let begun = start.begin(script).0;
    assert(script.skip(0) == script);
    lemma_run_rest(begun, busy);
}

/// Without a failure the driver never comes to turn the bus back.
pub proof fn lemma_unfailing_never_restores(state: DriverState, events: Seq<Event>)
    requires
        !(state.status is RestoringAccess),
        !(state.status is RestoringFlagLine),
        unfailing(events),
    ensures
        !(state.run(events).0.status is RestoringAccess),
        !(state.run(events).0.status is RestoringFlagLine),
    decreases events.len(),
{
    if events.len() > 0 {
        lemma_unfailing_never_restores(state.step(events.first()).0, events.drop_first());
    }
}

/// Without a failure, the operation that was handed out last is the one that
/// the driver awaits the report on.
pub proof fn lemma_awaits_last_handed_out(state: DriverState, events: Seq<Event>)
    requires
        state.wf(),
        !(state.status is RestoringAccess),
        !(state.status is RestoringFlagLine),
        unfailing(events),
        events.len() > 0,
        state.run(events).1.last() is Perform,
    ensures
        state.run(events).0.status is Running,
        state.run(events).1.last() == Action::Perform(state.run(events).0.current()),
{
    let before = events.drop_last();
    assert(events == before + seq![events.last()]);
    lemma_run_concat(state, before, seq![events.last()]);
    lemma_run_one(state.run(before).0, events.last());
    lemma_run_keeps_wf(state, before);
    lemma_unfailing_never_restores(state, before);
}

/// Pins in working order report no failure.
pub proof fn lemma_reports_unfailing(script: Seq<Op>, busy: Seq<Seq<u8>>)
    ensures
        unfailing(reports(script, busy)),
    decreases script.len(),
{
    if script.len() > 0 {
        let here = report(script.first(), busy.first());
        let there = reports(script.drop_first(), busy.drop_first());
        lemma_reports_unfailing(script.drop_first(), busy.drop_first());
    }
}

/// A failure at any point of a script, on pins that were in working order until
/// then. The driver has handed out the script up to the operation that failed
/// and hands out none of what was to follow. Where that operation held D7 as an
/// input, it hands out the two operations that turn the bus and D7 back to
/// writing, whatever is reported of them; then, and after any other operation
/// at once, it answers with an abort, and so it answers whatever is reported
/// afterwards. `done` is the number of operations that went well before the
/// failure, reads that showed busy counted each; `answers` are the reports on
/// the operations that turn back.
pub proof fn lemma_script_fails(
    start: DriverState,
    script: Seq<Op>,
    busy: Seq<Seq<u8>>,
    done: int,
    answers: Seq<Event>,
    after: Seq<Event>,
)
    requires
        start.wf(),
        start.status is Idle,
        script.len() > 0,
        busy.len() == script.len(),
        all_busy(busy),
        0 <= done < repeated(script, busy).len(),
        answers.len() == restoring(repeated(script, busy)[done]).len(),
    ensures
        ({
            let begun = start.begin(script);
            let events = reports(script, busy).take(done) + seq![Event::Failed] + answers
                + after;
            let ended = begun.0.run(events);
            let failed = repeated(script, busy)[done];
            &&& done < reports(script, busy).len()
            &&& seq![begun.1] + ended.1 == performs(repeated(script, busy).take(done + 1))
                + performs(restoring(failed)) + Seq::new(
                after.len() + 1,
                |i: int| Action::Abort(Fault::Io),
            )
            &&& ended.0.status == Status::Halted(Fault::Io)
        }),
{
    let begun = start.begin(script);
    let all = reports(script, busy);
    let before = all.take(done);
    let whole = performs(repeated(script, busy)) + seq![Action::Finished];
    lemma_script_runs(start, script, busy);
    lemma_run_keeps_wf(begun.0, all);
    assert(whole.len() == all.len() + 1);
    assert(all == before + all.skip(done));
    lemma_run_concat(begun.0, before, all.skip(done));
    lemma_run_keeps_wf(begun.0, before);
    if done > 0 {
        assert(begun.0.run(before).1.last() == whole[done]);
        lemma_reports_unfailing(script, busy);
        lemma_awaits_last_handed_out(begun.0, before);
    }
    lemma_failure_aborts(begun.0, before, answers, after);
    assert(whole.take(done + 1) == performs(repeated(script, busy).take(done + 1)));
}

} // verus!
