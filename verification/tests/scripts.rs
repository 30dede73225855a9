use hd44780_lcd::nibble::Nibble;
use hd44780_lcd::script::{
    char_sequence, data_register, init_sequence, instruction_register, level, levels, send_4,
    send_all, send_char, send_text_to_lcd, setup_lcd, text_sequence, toggle, Op, Transfer,
    HOLD_MICROS, RESET_FIRST_MICROS, RESET_SECOND_MICROS,
};
use hd44780_lcd::signal::{BusAccess, RegisterMode, Signal};
use hd44780_lcd::wiring::{BusWidth, SyncStrategy, Wiring};

fn nib(v: u8) -> Nibble {
    Nibble::from_value(v).unwrap()
}

fn blind4(delay: u64) -> Wiring {
    Wiring::Blind { width: BusWidth::Four, delay }
}

fn blind3(delay: u64) -> Wiring {
    Wiring::Blind { width: BusWidth::Three, delay }
}

fn strobe_ops(hold: u64) -> Vec<Op> {
    vec![Op::Enable(Signal::Asserted), Op::Wait(hold), Op::Enable(Signal::Deasserted)]
}

fn poll_ops() -> Vec<Op> {
    vec![
        Op::Access(BusAccess::Read),
        Op::ListenFlagLine,
        Op::ReadFlagLine,
        Op::Access(BusAccess::Write),
        Op::DriveFlagLine(false),
    ]
}

fn expected_transmission(nibble: Nibble, hold: u64, wiring: Wiring) -> Vec<Op> {
    let mut ops = Vec::new();
    match wiring {
        Wiring::Blind { width: BusWidth::Four, .. } => ops.push(Op::WriteBus(BusWidth::Four, nibble)),
        _ => {
            ops.push(Op::DriveFlagLine(nibble.b3));
            ops.push(Op::WriteBus(BusWidth::Three, nibble));
        }
    }
    ops.extend(strobe_ops(hold));
    match wiring {
        Wiring::Blind { delay, .. } => ops.push(Op::Wait(delay)),
        Wiring::Readback => ops.extend(poll_ops()),
    }
    ops
}

fn init_table() -> Vec<(u8, u64)> {
    vec![
        (0b0011, 4_100),
        (0b0011, 100),
        (0b0011, 40_000),
        (0b0010, 40_000),
        (0b0010, 40_000),
        (0b1000, 40_000),
        (0b0000, 40_000),
        (0b1100, 40_000),
        (0b0000, 40_000),
        (0b0001, 40_000),
        (0b0000, 40_000),
        (0b0010, 40_000),
        (0b0000, 40_000),
        (0b0110, 40_000),
    ]
}

#[test]
fn hold_times_are_those_of_the_data_sheet() {
    assert_eq!(RESET_FIRST_MICROS, 4_100);
    assert_eq!(RESET_SECOND_MICROS, 100);
    assert_eq!(HOLD_MICROS, 40_000);
}

#[test]
fn levels_of_the_control_lines() {
    assert_eq!(RegisterMode::Instruction.level(), 0);
    assert_eq!(RegisterMode::Data.level(), 1);
    assert_eq!(Signal::Asserted.level(), 0);
    assert_eq!(Signal::Deasserted.level(), 1);
    assert_eq!(BusAccess::Write.level(), 0);
    assert_eq!(BusAccess::Read.level(), 1);
    assert_eq!(level(false), 0);
    assert_eq!(level(true), 1);
}

#[test]
fn levels_on_a_bus_of_four_start_with_the_top_bit() {
    assert_eq!(levels(BusWidth::Four, nib(0b0011)), vec![0, 0, 1, 1]);
    assert_eq!(levels(BusWidth::Four, nib(0b1000)), vec![1, 0, 0, 0]);
    assert_eq!(levels(BusWidth::Four, nib(0b0110)), vec![0, 1, 1, 0]);
}

#[test]
fn levels_on_a_bus_of_three_leave_the_top_bit_out() {
    assert_eq!(levels(BusWidth::Three, nib(0b0011)), vec![0, 1, 1]);
    assert_eq!(levels(BusWidth::Three, nib(0b1000)), vec![0, 0, 0]);
    assert_eq!(levels(BusWidth::Three, nib(0b1110)), vec![1, 1, 0]);
}

#[test]
fn wiring_refuses_polling_on_a_bus_of_four() {
    assert_eq!(Wiring::new(BusWidth::Four, SyncStrategy::BusyPoll), None);
    assert_eq!(Wiring::new(BusWidth::Three, SyncStrategy::BusyPoll), Some(Wiring::Readback));
    assert_eq!(Wiring::new(BusWidth::Four, SyncStrategy::FixedDelay(50)), Some(blind4(50)));
    assert_eq!(Wiring::new(BusWidth::Three, SyncStrategy::FixedDelay(0)), Some(blind3(0)));
}

#[test]
fn bus_width_counts_its_lines() {
    assert_eq!(BusWidth::Three.lines(), 3);
    assert_eq!(BusWidth::Four.lines(), 4);
    for v in 0u8..16 {
        assert_eq!(levels(BusWidth::Three, nib(v)).len(), 3);
        assert_eq!(levels(BusWidth::Four, nib(v)).len(), 4);
    }
}

#[test]
fn wiring_gives_back_width_and_strategy() {
    assert_eq!(Wiring::Readback.width(), BusWidth::Three);
    assert_eq!(Wiring::Readback.sync(), SyncStrategy::BusyPoll);
    assert_eq!(blind4(7).width(), BusWidth::Four);
    assert_eq!(blind4(7).sync(), SyncStrategy::FixedDelay(7));
    assert_eq!(blind3(9).width(), BusWidth::Three);
    assert_eq!(blind3(9).sync(), SyncStrategy::FixedDelay(9));
}

#[test]
fn register_selection_is_a_single_operation() {
    assert_eq!(instruction_register(), vec![Op::SelectRegister(RegisterMode::Instruction)]);
    assert_eq!(data_register(), vec![Op::SelectRegister(RegisterMode::Data)]);
}

#[test]
fn toggle_asserts_holds_and_deasserts() {
    assert_eq!(toggle(40_000), strobe_ops(40_000));
    assert_eq!(toggle(0), strobe_ops(0));
    assert_eq!(toggle(u64::MAX), strobe_ops(u64::MAX));
}

#[test]
fn send_4_on_a_blind_bus_of_four() {
    assert_eq!(
        send_4(nib(0b1010), 4_100, blind4(37)),
        vec![
            Op::WriteBus(BusWidth::Four, nib(0b1010)),
            Op::Enable(Signal::Asserted),
            Op::Wait(4_100),
            Op::Enable(Signal::Deasserted),
            Op::Wait(37),
        ]
    );
}

#[test]
fn send_4_on_a_blind_bus_of_three() {
    assert_eq!(
        send_4(nib(0b1010), 100, blind3(0)),
        vec![
            Op::DriveFlagLine(true),
            Op::WriteBus(BusWidth::Three, nib(0b1010)),
            Op::Enable(Signal::Asserted),
            Op::Wait(100),
            Op::Enable(Signal::Deasserted),
            Op::Wait(0),
        ]
    );
}

#[test]
fn send_4_with_readback_polls_and_turns_the_bus_back() {
    assert_eq!(
        send_4(nib(0b0011), 40_000, Wiring::Readback),
        vec![
            Op::DriveFlagLine(false),
            Op::WriteBus(BusWidth::Three, nib(0b0011)),
            Op::Enable(Signal::Asserted),
            Op::Wait(40_000),
            Op::Enable(Signal::Deasserted),
            Op::Access(BusAccess::Read),
            Op::ListenFlagLine,
            Op::ReadFlagLine,
            Op::Access(BusAccess::Write),
            Op::DriveFlagLine(false),
        ]
    );
}

#[test]
fn send_all_of_nothing_is_empty() {
    assert_eq!(send_all(&Vec::new(), Wiring::Readback), Vec::new());
}

#[test]
fn send_all_keeps_the_order() {
    let transfers = vec![
        Transfer { nibble: nib(1), hold: 10 },
        Transfer { nibble: nib(2), hold: 20 },
        Transfer { nibble: nib(3), hold: 30 },
    ];
    let mut expected = Vec::new();
    for t in &transfers {
        expected.extend(expected_transmission(t.nibble, t.hold, blind4(5)));
    }
    assert_eq!(send_all(&transfers, blind4(5)), expected);
}

#[test]
fn init_sequence_is_the_handshake_of_the_data_sheet() {
    let expected: Vec<Transfer> =
        init_table().into_iter().map(|(v, hold)| Transfer { nibble: nib(v), hold }).collect();
    assert_eq!(init_sequence(), expected);
    assert_eq!(init_sequence().len(), 14);
}

#[test]
fn setup_lcd_selects_instructions_then_sends_the_handshake() {
    for wiring in [blind4(0), blind3(120), Wiring::Readback] {
        let mut expected = vec![Op::SelectRegister(RegisterMode::Instruction)];
        for (v, hold) in init_table() {
            expected.extend(expected_transmission(nib(v), hold, wiring));
        }
        assert_eq!(setup_lcd(wiring), expected);
    }
}

#[test]
fn setup_lcd_strobes_once_per_nibble() {
    for wiring in [blind4(0), blind3(120), Wiring::Readback] {
        let ops = setup_lcd(wiring);
        let asserted = ops.iter().filter(|op| **op == Op::Enable(Signal::Asserted)).count();
        let deasserted = ops.iter().filter(|op| **op == Op::Enable(Signal::Deasserted)).count();
        let selects = ops.iter().filter(|op| matches!(op, Op::SelectRegister(_))).count();
        assert_eq!(asserted, 14);
        assert_eq!(deasserted, 14);
        assert_eq!(selects, 1);
    }
}

#[test]
fn char_sequence_is_high_then_low() {
    assert_eq!(
        char_sequence('H'),
        vec![
            Transfer { nibble: nib(0x4), hold: 40_000 },
            Transfer { nibble: nib(0x8), hold: 40_000 },
        ]
    );
    assert_eq!(char_sequence('é'), Vec::new());
}

#[test]
fn send_char_sends_two_nibbles() {
    let mut expected = expected_transmission(nib(0x6), 40_000, Wiring::Readback);
    expected.extend(expected_transmission(nib(0x9), 40_000, Wiring::Readback));
    assert_eq!(send_char('i', Wiring::Readback), expected);
}

#[test]
fn send_char_passes_over_what_is_not_ascii() {
    assert_eq!(send_char('ß', Wiring::Readback), Vec::new());
    assert_eq!(send_char('\u{80}', blind4(1)), Vec::new());
}

#[test]
fn text_sequence_follows_the_characters() {
    let expected: Vec<Transfer> = [0x4u8, 0x8, 0x6, 0x9]
        .iter()
        .map(|v| Transfer { nibble: nib(*v), hold: 40_000 })
        .collect();
    assert_eq!(text_sequence("Hi"), expected);
    assert_eq!(text_sequence(""), Vec::new());
}

#[test]
fn text_sequence_drops_what_is_not_ascii() {
    assert_eq!(text_sequence("Hé€i"), text_sequence("Hi"));
    assert_eq!(text_sequence("äöü"), Vec::new());
}

#[test]
fn send_text_to_lcd_selects_data_once_and_first() {
    for wiring in [blind4(0), blind3(3), Wiring::Readback] {
        let ops = send_text_to_lcd("Hello, World!", wiring);
        assert_eq!(ops[0], Op::SelectRegister(RegisterMode::Data));
        assert!(ops[1..].iter().all(|op| !matches!(op, Op::SelectRegister(_))));
        let strobes = ops.iter().filter(|op| **op == Op::Enable(Signal::Asserted)).count();
        assert_eq!(strobes, 26);
    }
}

#[test]
fn send_text_to_lcd_of_hi() {
    let wiring = blind4(0);
    let mut expected = vec![Op::SelectRegister(RegisterMode::Data)];
    for v in [0x4u8, 0x8, 0x6, 0x9] {
        expected.extend(expected_transmission(nib(v), 40_000, wiring));
    }
    assert_eq!(send_text_to_lcd("Hi", wiring), expected);
}

#[test]
fn send_text_to_lcd_of_nothing_only_selects_the_register() {
    assert_eq!(send_text_to_lcd("", Wiring::Readback), vec![Op::SelectRegister(RegisterMode::Data)]);
    assert_eq!(send_text_to_lcd("é", blind3(1)), vec![Op::SelectRegister(RegisterMode::Data)]);
}
