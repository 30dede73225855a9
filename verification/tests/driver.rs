use hd44780_lcd::driver::{Action, Driver, Event, Fault, Status};
use hd44780_lcd::nibble::Nibble;
use hd44780_lcd::script::{send_4, send_text_to_lcd, setup_lcd, Op};
use hd44780_lcd::signal::{BusAccess, RegisterMode, Signal};
use hd44780_lcd::wiring::{BusWidth, Wiring};

/// Pins that exist only in memory. They keep a record of what was done to them.
struct Pins {
    /// Every operation that was performed, failed ones left out.
    performed: Vec<Op>,
    /// The levels that D7 gives to the reads still to come; once used up it reads clear.
    flag_levels: Vec<u8>,
    /// The number of the operation that fails, counted from zero.
    fail_at: Option<usize>,
    /// From this operation on every one fails.
    fail_from: Option<usize>,
    attempts: usize,
    top_bit: bool,
    low_bits: Nibble,
    bus: Option<Nibble>,
    register: Option<RegisterMode>,
    enable: Signal,
    access: BusAccess,
    flag_line_is_input: bool,
    /// The nibble on the data lines and the hold time, for each strobe.
    strobes: Vec<(u8, u64)>,
    /// The register that was selected at each strobe.
    strobe_registers: Vec<Option<RegisterMode>>,
    reads: usize,
}

impl Pins {
    fn new() -> Pins {
        Pins {
            performed: Vec::new(),
            flag_levels: Vec::new(),
            fail_at: None,
            fail_from: None,
            attempts: 0,
            top_bit: false,
            low_bits: Nibble::from_value(0).unwrap(),
            bus: None,
            register: None,
            enable: Signal::Deasserted,
            access: BusAccess::Write,
            flag_line_is_input: false,
            strobes: Vec::new(),
            strobe_registers: Vec::new(),
            reads: 0,
        }
    }

    fn busy_for(reads: usize) -> Pins {
        let mut pins = Pins::new();
        pins.flag_levels = vec![1; reads];
        pins
    }

    fn failing_at(attempt: usize) -> Pins {
        let mut pins = Pins::new();
        pins.fail_at = Some(attempt);
        pins
    }

    fn perform(&mut self, op: Op) -> Event {
        let attempt = self.attempts;
        self.attempts += 1;
        if self.fail_at == Some(attempt) || self.fail_from.map_or(false, |from| attempt >= from) {
            return Event::Failed;
        }
        self.performed.push(op);
        match op {
            Op::SelectRegister(mode) => self.register = Some(mode),
            Op::DriveFlagLine(bit) => {
                self.flag_line_is_input = false;
                self.top_bit = bit;
            }
            Op::WriteBus(BusWidth::Four, nibble) => self.bus = Some(nibble),
            Op::WriteBus(BusWidth::Three, nibble) => {
                self.low_bits = nibble;
                self.bus = Some(Nibble { b3: self.top_bit, ..nibble });
            }
            Op::Enable(signal) => self.enable = signal,
            Op::Wait(micros) => {
                if self.enable == Signal::Asserted {
                    assert_eq!(self.access, BusAccess::Write, "a strobe while the bus is turned round");
                    assert!(!self.flag_line_is_input, "a strobe while D7 is an input");
                    self.strobes.push((self.bus.expect("a nibble is on the bus").to_value(), micros));
                    self.strobe_registers.push(self.register);
                }
            }
            Op::Access(access) => self.access = access,
            Op::ListenFlagLine => self.flag_line_is_input = true,
            Op::ReadFlagLine => {
                assert!(self.flag_line_is_input, "D7 is read while it is an output");
                assert_eq!(self.access, BusAccess::Read);
                self.reads += 1;
                let level = if self.flag_levels.is_empty() { 0 } else { self.flag_levels.remove(0) };
                return Event::Level(level);
            }
        }
        Event::Done
    }
}

/// Runs a script to its end and gives back every action of the driver.
fn run(driver: &mut Driver, script: Vec<Op>, pins: &mut Pins) -> Vec<Action> {
    let mut actions = Vec::new();
    let mut action = driver.begin(script);
    loop {
        actions.push(action);
        match action {
            Action::Perform(op) => action = driver.step(pins.perform(op)),
            Action::Finished | Action::Abort(_) => return actions,
        }
    }
}

fn nib(v: u8) -> Nibble {
    Nibble::from_value(v).unwrap()
}

fn init_table() -> Vec<(u8, u64)> {
    vec![
        (0b0011, 4_100),
        (0b0011, 100),
        (0b0011, 40_000),
        (0b0010, 40_000),
        (0b0010, 40_000),
        (0b1000, 40_000),
        (0b0000, 40_000),
        (0b1100, 40_000),
        (0b0000, 40_000),
        (0b0001, 40_000),
        (0b0000, 40_000),
        (0b0010, 40_000),
        (0b0000, 40_000),
        (0b0110, 40_000),
    ]
}

fn wirings() -> Vec<Wiring> {
    vec![
        Wiring::Blind { width: BusWidth::Four, delay: 0 },
        Wiring::Blind { width: BusWidth::Three, delay: 250 },
        Wiring::Readback,
    ]
}

#[test]
fn new_driver_is_idle_and_knows_no_register() {
    let driver = Driver::new();
    assert_eq!(driver.status(), Status::Idle);
    assert_eq!(driver.register(), None);
}

#[test]
fn setup_strobes_the_handshake_in_order() {
    for wiring in wirings() {
        let mut driver = Driver::new();
        let mut pins = Pins::new();
        let actions = run(&mut driver, setup_lcd(wiring), &mut pins);
        assert_eq!(actions.last(), Some(&Action::Finished));
        assert_eq!(pins.strobes, init_table());
        assert_eq!(pins.strobes.len(), 14);
        assert_eq!(pins.performed, setup_lcd(wiring));
        assert_eq!(pins.enable, Signal::Deasserted);
        assert!(pins.strobe_registers.iter().all(|r| *r == Some(RegisterMode::Instruction)));
        assert_eq!(driver.status(), Status::Idle);
        assert_eq!(driver.register(), Some(RegisterMode::Instruction));
    }
}

#[test]
fn setup_with_a_busy_controller_strobes_the_same_handshake() {
    let mut driver = Driver::new();
    let mut pins = Pins::new();
    pins.flag_levels = vec![1, 1, 0, 1, 0, 0, 1, 1, 1, 0];
    let actions = run(&mut driver, setup_lcd(Wiring::Readback), &mut pins);
    assert_eq!(actions.last(), Some(&Action::Finished));
    assert_eq!(pins.strobes, init_table());
    assert_eq!(pins.reads, 14 + 6);
    assert_eq!(pins.access, BusAccess::Write);
    assert!(!pins.flag_line_is_input);
}

#[test]
fn hi_is_four_transmissions_in_data_mode() {
    for wiring in wirings() {
        let mut driver = Driver::new();
        let mut pins = Pins::new();
        let actions = run(&mut driver, send_text_to_lcd("Hi", wiring), &mut pins);
        assert_eq!(actions[0], Action::Perform(Op::SelectRegister(RegisterMode::Data)));
        assert_eq!(actions.last(), Some(&Action::Finished));
        assert_eq!(
            pins.strobes,
            vec![(0x4, 40_000), (0x8, 40_000), (0x6, 40_000), (0x9, 40_000)]
        );
        assert_eq!(pins.strobe_registers, vec![Some(RegisterMode::Data); 4]);
        let selections: Vec<&Op> =
            pins.performed.iter().filter(|op| matches!(op, Op::SelectRegister(_))).collect();
        assert_eq!(selections, vec![&Op::SelectRegister(RegisterMode::Data)]);
        assert_eq!(driver.register(), Some(RegisterMode::Data));
    }
}

#[test]
fn text_after_setup_switches_the_register_once() {
    let mut driver = Driver::new();
    let mut pins = Pins::new();
    run(&mut driver, setup_lcd(Wiring::Readback), &mut pins);
    assert_eq!(driver.register(), Some(RegisterMode::Instruction));
    run(&mut driver, send_text_to_lcd("Hello, World!", Wiring::Readback), &mut pins);
    assert_eq!(driver.register(), Some(RegisterMode::Data));
    assert_eq!(driver.status(), Status::Idle);
    assert_eq!(pins.strobes.len(), 14 + 26);
    let selections: Vec<Op> = pins
        .performed
        .iter()
        .filter(|op| matches!(op, Op::SelectRegister(_)))
        .copied()
        .collect();
    assert_eq!(
        selections,
        vec![Op::SelectRegister(RegisterMode::Instruction), Op::SelectRegister(RegisterMode::Data)]
    );
}

#[test]
fn text_without_ascii_sends_nothing() {
    let mut driver = Driver::new();
    let mut pins = Pins::new();
    let actions = run(&mut driver, send_text_to_lcd("äÖ€", Wiring::Readback), &mut pins);
    assert_eq!(
        actions,
        vec![Action::Perform(Op::SelectRegister(RegisterMode::Data)), Action::Finished]
    );
    assert!(pins.strobes.is_empty());
}

#[test]
fn busy_poll_reads_once_more_than_the_line_is_busy() {
    for busy in 0..6 {
        let mut driver = Driver::new();
        let mut pins = Pins::busy_for(busy);
        let actions = run(&mut driver, send_4(nib(0b0101), 40_000, Wiring::Readback), &mut pins);
        assert_eq!(pins.reads, busy + 1);
        let mut expected = vec![
            Action::Perform(Op::DriveFlagLine(false)),
            Action::Perform(Op::WriteBus(BusWidth::Three, nib(0b0101))),
            Action::Perform(Op::Enable(Signal::Asserted)),
            Action::Perform(Op::Wait(40_000)),
            Action::Perform(Op::Enable(Signal::Deasserted)),
            Action::Perform(Op::Access(BusAccess::Read)),
            Action::Perform(Op::ListenFlagLine),
        ];
        expected.extend(vec![Action::Perform(Op::ReadFlagLine); busy + 1]);
        expected.extend(vec![
            Action::Perform(Op::Access(BusAccess::Write)),
            Action::Perform(Op::DriveFlagLine(false)),
            Action::Finished,
        ]);
        assert_eq!(actions, expected);
        assert_eq!(pins.access, BusAccess::Write);
        assert!(!pins.flag_line_is_input);
        assert_eq!(driver.status(), Status::Idle);
    }
}

#[test]
fn busy_poll_takes_any_level_above_zero_for_busy() {
    let mut driver = Driver::new();
    let mut pins = Pins::new();
    pins.flag_levels = vec![1, 255, 2];
    run(&mut driver, send_4(nib(0), 1, Wiring::Readback), &mut pins);
    assert_eq!(pins.reads, 4);
}

#[test]
fn failure_gives_the_script_up_wherever_it_strikes() {
    let turn_back = vec![Op::Access(BusAccess::Write), Op::DriveFlagLine(false)];
    for wiring in wirings() {
        let script = setup_lcd(wiring);
        for attempt in 0..script.len() {
            let mut driver = Driver::new();
            let mut pins = Pins::failing_at(attempt);
            let actions = run(&mut driver, script.clone(), &mut pins);
            let in_poll = matches!(script[attempt], Op::ListenFlagLine | Op::ReadFlagLine);
            let mut handed_out: Vec<Action> =
                script[..attempt + 1].iter().map(|op| Action::Perform(*op)).collect();
            let mut performed = script[..attempt].to_vec();
            if in_poll {
                handed_out.extend(turn_back.iter().map(|op| Action::Perform(*op)));
                performed.extend(turn_back.iter().copied());
            }
            handed_out.push(Action::Abort(Fault::Io));
            assert_eq!(actions, handed_out);
            assert_eq!(pins.performed, performed);
            assert_eq!(pins.attempts, performed.len() + 1);
            assert_eq!(driver.status(), Status::Halted(Fault::Io));
            if in_poll {
                assert_eq!(pins.access, BusAccess::Write);
                assert!(!pins.flag_line_is_input);
            }
        }
    }
}

#[test]
fn failure_outside_a_poll_aborts_at_once() {
    // In a polled transmission the operations 0 to 5 come before D7 is made an
    // input, and 8 and 9 after the last read.
    for attempt in [0usize, 1, 2, 3, 4, 5, 8, 9] {
        let mut driver = Driver::new();
        let mut pins = Pins::failing_at(attempt);
        let script = send_4(nib(0b1001), 40_000, Wiring::Readback);
        let actions = run(&mut driver, script.clone(), &mut pins);
        assert_eq!(actions.len(), attempt + 2);
        assert_eq!(actions[attempt], Action::Perform(script[attempt]));
        assert_eq!(actions[attempt + 1], Action::Abort(Fault::Io));
        assert_eq!(pins.attempts, attempt + 1);
        assert_eq!(driver.status(), Status::Halted(Fault::Io));
    }
}

#[test]
fn failure_on_a_strobe_leaves_the_later_nibbles_unsent() {
    let wiring = Wiring::Blind { width: BusWidth::Four, delay: 0 };
    let mut driver = Driver::new();
    // Operation 0 selects the register; each nibble takes five more; the third
    // nibble's strobe starts at operation 12.
    let mut pins = Pins::failing_at(12);
    let actions = run(&mut driver, setup_lcd(wiring), &mut pins);
    assert_eq!(actions.last(), Some(&Action::Abort(Fault::Io)));
    assert_eq!(pins.strobes, vec![(0b0011, 4_100), (0b0011, 100)]);
}

#[test]
fn failure_during_text_keeps_what_was_written() {
    let wiring = Wiring::Blind { width: BusWidth::Four, delay: 0 };
    let mut driver = Driver::new();
    let mut pins = Pins::failing_at(11);
    let actions = run(&mut driver, send_text_to_lcd("Hi", wiring), &mut pins);
    assert_eq!(actions.last(), Some(&Action::Abort(Fault::Io)));
    assert_eq!(pins.strobes, vec![(0x4, 40_000), (0x8, 40_000)]);
    assert_eq!(driver.register(), Some(RegisterMode::Data));
}

#[test]
fn failure_of_a_read_aborts_the_poll() {
    let mut driver = Driver::new();
    let mut pins = Pins::busy_for(3);
    pins.fail_at = Some(8);
    let actions = run(&mut driver, send_4(nib(1), 10, Wiring::Readback), &mut pins);
    assert_eq!(actions.last(), Some(&Action::Abort(Fault::Io)));
    assert_eq!(pins.reads, 1);
}

#[test]
fn failure_of_a_read_turns_the_bus_back() {
    for busy in 0..4 {
        let mut driver = Driver::new();
        let mut pins = Pins::busy_for(busy);
        pins.fail_at = Some(7 + busy);
        let actions = run(&mut driver, send_4(nib(1), 10, Wiring::Readback), &mut pins);
        assert_eq!(pins.reads, busy);
        assert_eq!(
            actions[actions.len() - 4..],
            [
                Action::Perform(Op::ReadFlagLine),
                Action::Perform(Op::Access(BusAccess::Write)),
                Action::Perform(Op::DriveFlagLine(false)),
                Action::Abort(Fault::Io),
            ]
        );
        assert_eq!(actions.len(), 7 + busy + 4);
        assert_eq!(pins.access, BusAccess::Write);
        assert!(!pins.flag_line_is_input);
        assert_eq!(pins.enable, Signal::Deasserted);
        assert_eq!(pins.strobes, vec![(1, 10)]);
        assert_eq!(driver.status(), Status::Halted(Fault::Io));
    }
}

#[test]
fn failure_of_the_input_request_turns_the_bus_back() {
    let mut driver = Driver::new();
    let mut pins = Pins::failing_at(6);
    let actions = run(&mut driver, send_4(nib(0b1111), 10, Wiring::Readback), &mut pins);
    assert_eq!(
        actions,
        vec![
            Action::Perform(Op::DriveFlagLine(true)),
            Action::Perform(Op::WriteBus(BusWidth::Three, nib(0b1111))),
            Action::Perform(Op::Enable(Signal::Asserted)),
            Action::Perform(Op::Wait(10)),
            Action::Perform(Op::Enable(Signal::Deasserted)),
            Action::Perform(Op::Access(BusAccess::Read)),
            Action::Perform(Op::ListenFlagLine),
            Action::Perform(Op::Access(BusAccess::Write)),
            Action::Perform(Op::DriveFlagLine(false)),
            Action::Abort(Fault::Io),
        ]
    );
    assert_eq!(pins.reads, 0);
    assert_eq!(pins.access, BusAccess::Write);
    assert!(!pins.flag_line_is_input);
    assert_eq!(driver.status(), Status::Halted(Fault::Io));
}

#[test]
fn turning_back_goes_on_whatever_is_reported() {
    let mut driver = Driver::new();
    let mut pins = Pins::new();
    pins.fail_from = Some(7);
    let actions = run(&mut driver, send_4(nib(1), 10, Wiring::Readback), &mut pins);
    assert_eq!(
        actions[7..],
        [
            Action::Perform(Op::ReadFlagLine),
            Action::Perform(Op::Access(BusAccess::Write)),
            Action::Perform(Op::DriveFlagLine(false)),
            Action::Abort(Fault::Io),
        ]
    );
    assert_eq!(pins.attempts, 10);

    for (first, second) in [
        (Event::Done, Event::Done),
        (Event::Level(1), Event::Level(0)),
        (Event::Failed, Event::Done),
        (Event::Done, Event::Failed),
    ] {
        let mut driver = Driver::new();
        let mut action = driver.begin(send_4(nib(1), 10, Wiring::Readback));
        while action != Action::Perform(Op::ReadFlagLine) {
            action = driver.step(Event::Done);
        }
        assert_eq!(driver.step(Event::Failed), Action::Perform(Op::Access(BusAccess::Write)));
        assert_eq!(driver.status(), Status::RestoringAccess);
        assert_eq!(driver.step(first), Action::Perform(Op::DriveFlagLine(false)));
        assert_eq!(driver.status(), Status::RestoringFlagLine);
        assert_eq!(driver.step(second), Action::Abort(Fault::Io));
        assert_eq!(driver.status(), Status::Halted(Fault::Io));
        assert_eq!(driver.step(Event::Done), Action::Abort(Fault::Io));
    }
}

#[test]
fn beginning_while_the_bus_is_turned_back_stops_on_the_failure() {
    for reports in 0..2 {
        let mut driver = Driver::new();
        let mut action = driver.begin(send_4(nib(1), 10, Wiring::Readback));
        while action != Action::Perform(Op::ListenFlagLine) {
            action = driver.step(Event::Done);
        }
        assert_eq!(driver.step(Event::Failed), Action::Perform(Op::Access(BusAccess::Write)));
        for _ in 0..reports {
            driver.step(Event::Done);
        }
        assert_eq!(driver.begin(setup_lcd(Wiring::Readback)), Action::Abort(Fault::Io));
        assert_eq!(driver.status(), Status::Halted(Fault::Io));
    }
}

#[test]
fn halted_driver_answers_everything_with_its_fault() {
    let mut driver = Driver::new();
    let mut pins = Pins::failing_at(3);
    run(&mut driver, setup_lcd(Wiring::Readback), &mut pins);
    assert_eq!(driver.step(Event::Done), Action::Abort(Fault::Io));
    assert_eq!(driver.step(Event::Level(0)), Action::Abort(Fault::Io));
    assert_eq!(driver.step(Event::Failed), Action::Abort(Fault::Io));
    assert_eq!(driver.begin(setup_lcd(Wiring::Readback)), Action::Abort(Fault::Io));
    assert_eq!(driver.begin(Vec::new()), Action::Abort(Fault::Io));
    assert_eq!(driver.status(), Status::Halted(Fault::Io));
}

#[test]
fn report_to_an_idle_driver_is_out_of_turn() {
    for event in [Event::Done, Event::Level(0), Event::Level(1), Event::Failed] {
        let mut driver = Driver::new();
        assert_eq!(driver.step(event), Action::Abort(Fault::OutOfTurn));
        assert_eq!(driver.status(), Status::Halted(Fault::OutOfTurn));
    }
}

#[test]
fn level_reported_for_a_write_is_out_of_turn() {
    let mut driver = Driver::new();
    let first = driver.begin(setup_lcd(Wiring::Readback));
    assert_eq!(first, Action::Perform(Op::SelectRegister(RegisterMode::Instruction)));
    assert_eq!(driver.status(), Status::Running);
    assert_eq!(driver.step(Event::Level(0)), Action::Abort(Fault::OutOfTurn));
    assert_eq!(driver.status(), Status::Halted(Fault::OutOfTurn));
    assert_eq!(driver.register(), None);
}

#[test]
fn success_reported_for_a_read_is_out_of_turn() {
    let mut driver = Driver::new();
    let mut action = driver.begin(send_4(nib(9), 5, Wiring::Readback));
    while action != Action::Perform(Op::ReadFlagLine) {
        action = driver.step(Event::Done);
    }
    assert_eq!(driver.step(Event::Done), Action::Abort(Fault::OutOfTurn));
}

#[test]
fn beginning_while_under_way_is_out_of_turn() {
    let mut driver = Driver::new();
    driver.begin(setup_lcd(Wiring::Readback));
    assert_eq!(
        driver.begin(send_text_to_lcd("Hi", Wiring::Readback)),
        Action::Abort(Fault::OutOfTurn)
    );
    assert_eq!(driver.step(Event::Done), Action::Abort(Fault::OutOfTurn));
}

#[test]
fn empty_script_is_through_at_once() {
    let mut driver = Driver::new();
    assert_eq!(driver.begin(Vec::new()), Action::Finished);
    assert_eq!(driver.status(), Status::Idle);
    assert_eq!(driver.begin(vec![Op::Wait(1)]), Action::Perform(Op::Wait(1)));
    assert_eq!(driver.step(Event::Done), Action::Finished);
    assert_eq!(driver.status(), Status::Idle);
}

#[test]
fn register_is_mirrored_when_the_selection_is_performed() {
    let mut driver = Driver::new();
    let script = vec![
        Op::SelectRegister(RegisterMode::Data),
        Op::Wait(1),
        Op::SelectRegister(RegisterMode::Instruction),
    ];
    assert_eq!(driver.begin(script), Action::Perform(Op::SelectRegister(RegisterMode::Data)));
    assert_eq!(driver.register(), None);
    assert_eq!(driver.step(Event::Done), Action::Perform(Op::Wait(1)));
    assert_eq!(driver.register(), Some(RegisterMode::Data));
    assert_eq!(
        driver.step(Event::Done),
        Action::Perform(Op::SelectRegister(RegisterMode::Instruction))
    );
    assert_eq!(driver.register(), Some(RegisterMode::Data));
    assert_eq!(driver.step(Event::Done), Action::Finished);
    assert_eq!(driver.register(), Some(RegisterMode::Instruction));
}
