use psu_controller::interface::{add_digit, char_to_num, Command, State};
use psu_controller::text::{from_str, CapacityExceeded};

fn run_input_sequence(seq: &str, initial_state: State) -> (State, Option<Command>) {
    let mut state = initial_state;
    let mut last_cmd = None;
    for input in seq.chars() {
        let (new_state, new_cmd) = state.update(input);
        state = new_state;
        last_cmd = new_cmd;
    }

    (state, last_cmd)
}

/// The set-point that a command carries, in volts or amperes.
fn set_point(command: Command) -> Option<f32> {
    match command {
        Command::Voltage(millivolts) => Some(millivolts as f32 / 1000.),
        Command::Current(milliamperes) => Some(milliamperes as f32 / 1000.),
        Command::OutputOn | Command::OutputOff => None,
    }
}

fn display(state: State) -> String {
    state.get_display().unwrap().as_str().to_string()
}

#[test]
fn voltage_input() {
    assert_eq!(
        run_input_sequence("11234a1", State::Start),
        (State::Start, Some(Command::Voltage(1234)))
    );
    let (_, command) = run_input_sequence("11234a1", State::Start);
    assert_eq!(command.and_then(set_point), Some(1.234));
}

#[test]
fn current_input() {
    assert_eq!(
        run_input_sequence("22", State::Start),
        (State::InputCurrent(2), None)
    );
    assert_eq!(
        run_input_sequence("22a", State::Start),
        (State::Confirm(Command::Current(2)), None)
    );
    assert_eq!(set_point(Command::Current(2)), Some(0.002));
    assert_eq!(
        run_input_sequence("2234a1", State::Start),
        (State::Start, Some(Command::Current(234)))
    );
    let (_, command) = run_input_sequence("2234a1", State::Start);
    assert_eq!(command.and_then(set_point), Some(0.234));
}

#[test]
fn aborted_voltage() {
    assert_eq!(
        run_input_sequence("11234a2", State::Start),
        (State::Start, None)
    );
}

#[test]
fn aborted_current() {
    assert_eq!(
        run_input_sequence("2234a2", State::Start),
        (State::Start, None)
    );
}

#[test]
fn toggle_output() {
    assert_eq!(
        run_input_sequence("31", State::Start),
        (State::Start, Some(Command::OutputOn))
    );
    assert_eq!(
        run_input_sequence("32", State::Start),
        (State::Start, Some(Command::OutputOff))
    );
}

#[test]
fn menu_keys_open_the_dialogues() {
    assert_eq!(State::Start.update('1'), (State::InputVoltage(0), None));
    assert_eq!(State::Start.update('2'), (State::InputCurrent(0), None));
    assert_eq!(State::Start.update('3'), (State::ToggleOutput, None));
}

#[test]
fn unmapped_keys_change_nothing() {
    for key in ['0', '4', '9', 'a', 'b', 'x', ' '] {
        assert_eq!(State::Start.update(key), (State::Start, None));
    }
    for key in ['0', '3', '9', 'a', 'b', 'x'] {
        assert_eq!(State::ToggleOutput.update(key), (State::ToggleOutput, None));
        let confirm = State::Confirm(Command::Voltage(5000));
        assert_eq!(confirm.update(key), (confirm, None));
    }
    assert_eq!(State::InputVoltage(12).update('x'), (State::InputVoltage(12), None));
    assert_eq!(State::InputCurrent(12).update('#'), (State::InputCurrent(12), None));
}

#[test]
fn digits_accumulate_in_decimal() {
    assert_eq!(State::InputVoltage(0).update('0'), (State::InputVoltage(0), None));
    assert_eq!(State::InputVoltage(12).update('3'), (State::InputVoltage(123), None));
    assert_eq!(State::InputCurrent(6553).update('5'), (State::InputCurrent(65535), None));
    assert_eq!(
        run_input_sequence("10012", State::Start),
        (State::InputVoltage(12), None)
    );
}

#[test]
fn accept_asks_for_confirmation() {
    assert_eq!(
        State::InputVoltage(3300).update('a'),
        (State::Confirm(Command::Voltage(3300)), None)
    );
    assert_eq!(
        State::InputCurrent(150).update('a'),
        (State::Confirm(Command::Current(150)), None)
    );
    assert_eq!(
        run_input_sequence("1a1", State::Start),
        (State::Start, Some(Command::Voltage(0)))
    );
}

#[test]
fn back_discards_the_digits() {
    assert_eq!(run_input_sequence("1b", State::Start), (State::Start, None));
    assert_eq!(run_input_sequence("11234b", State::Start), (State::Start, None));
    assert_eq!(run_input_sequence("2b", State::Start), (State::Start, None));
    assert_eq!(run_input_sequence("299999b", State::Start), (State::Start, None));
    assert_eq!(State::InputVoltage(65535).update('b'), (State::Start, None));
}

#[test]
fn confirm_emits_the_pending_command_once() {
    let confirm = State::Confirm(Command::Current(42));
    assert_eq!(confirm.update('1'), (State::Start, Some(Command::Current(42))));
    assert_eq!(confirm.update('2'), (State::Start, None));
    assert_eq!(
        run_input_sequence("1500a11", State::Start),
        (State::InputVoltage(0), None)
    );
}

#[test]
fn accumulator_wraps_at_sixteen_bits() {
    assert_eq!(
        run_input_sequence("165535", State::Start),
        (State::InputVoltage(65535), None)
    );
    assert_eq!(
        run_input_sequence("165536", State::Start),
        (State::InputVoltage(0), None)
    );
    assert_eq!(
        run_input_sequence("170000a1", State::Start),
        (State::Start, Some(Command::Voltage(4464)))
    );
    assert_eq!(add_digit(6553, '6'), 0);
    assert_eq!(add_digit(65535, '9'), 65535u16.wrapping_mul(10).wrapping_add(9));
    assert_eq!(add_digit(65535, '9'), 65535);
    assert_eq!(add_digit(60000, '0'), 10176);
}

#[test]
fn add_digit_appends_digits_only() {
    assert_eq!(add_digit(0, '0'), 0);
    assert_eq!(add_digit(0, '7'), 7);
    assert_eq!(add_digit(123, '4'), 1234);
    assert_eq!(add_digit(123, 'a'), 123);
    assert_eq!(add_digit(123, 'b'), 123);
    assert_eq!(add_digit(123, '/'), 123);
    assert_eq!(add_digit(123, ':'), 123);
}

#[test]
fn char_to_num_knows_the_ten_digits() {
    let digits = ['0', '1', '2', '3', '4', '5', '6', '7', '8', '9'];
    for (value, digit) in digits.iter().enumerate() {
        assert_eq!(char_to_num(*digit), Some(value as u8));
    }
    for other in ['a', 'b', '/', ':', ' ', 'A', '\u{0661}', '\u{ff11}'] {
        assert_eq!(char_to_num(other), None);
    }
}

#[test]
fn display_shows_the_static_prompts() {
    assert_eq!(display(State::Start), "1:V 2:A 3:I/o");
    assert_eq!(display(State::Confirm(Command::Voltage(1))), "Confirm 1:y 2:n");
    assert_eq!(display(State::Confirm(Command::OutputOff)), "Confirm 1:y 2:n");
    assert_eq!(display(State::ToggleOutput), "1:On 2:Off");
}

#[test]
fn display_shows_the_number_typed_with_its_unit() {
    assert_eq!(display(State::InputVoltage(0)), "0 mV");
    assert_eq!(display(State::InputVoltage(7)), "7 mV");
    assert_eq!(display(State::InputVoltage(1234)), "1234 mV");
    assert_eq!(display(State::InputVoltage(65535)), "65535 mV");
    assert_eq!(display(State::InputCurrent(0)), "0 mA");
    assert_eq!(display(State::InputCurrent(10)), "10 mA");
    assert_eq!(display(State::InputCurrent(60000)), "60000 mA");
}

#[test]
fn display_fits_a_line_for_every_value() {
    for value in [0u16, 9, 10, 99, 100, 999, 1000, 9999, 10000, 65535] {
        let text = State::InputVoltage(value).get_display().unwrap();
        assert_eq!(text.as_str(), format!("{} mV", value));
        assert!(text.len() <= 16);
    }
}

#[test]
fn text_takes_up_to_thirty_two_bytes() {
    let full = "0123456789abcdef0123456789abcdef";
    assert_eq!(full.len(), 32);
    assert_eq!(from_str(full).unwrap().as_str(), full);
    assert_eq!(from_str("").unwrap().as_str(), "");
    assert_eq!(from_str("abc").unwrap().as_str(), "abc");
    assert_eq!(from_str("abc").unwrap().len(), 3);
}

#[test]
fn text_of_more_than_thirty_two_bytes_is_refused() {
    let long = "0123456789abcdef0123456789abcdef0";
    assert_eq!(long.len(), 33);
    assert_eq!(from_str(long).err(), Some(CapacityExceeded));
    let wide = "ääääääääääääääääää";
    assert_eq!(wide.chars().count(), 18);
    assert_eq!(wide.len(), 36);
    assert_eq!(from_str(wide).err(), Some(CapacityExceeded));
    let sixteen_wide = "ääääääääääääääää";
    assert_eq!(from_str(sixteen_wide).unwrap().as_str(), sixteen_wide);
}
