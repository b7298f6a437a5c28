use psu_controller::interface::Command;
use psu_controller::state::State;

fn status(state: &State) -> String {
    state.get_display().unwrap().as_str().to_string()
}

#[test]
fn new_state_enables_the_output_only_with_the_switch_open() {
    let open = State::new(false);
    assert!(open.output_enabled);
    assert_eq!(open.output_voltage(), 0);
    assert_eq!(status(&open), "0 mV Off");

    let closed = State::new(true);
    assert!(!closed.output_enabled);
    assert_eq!(closed.output_voltage(), 0);
    assert_eq!(status(&closed), "0 mV Disabled");
}

#[test]
fn output_voltage_is_zero_while_disabled() {
    let mut state = State::new(true);
    state.set_voltage(12000);
    assert!(!state.output_enabled);
    assert_eq!(state.output_voltage(), 0);
    state.output_enabled = true;
    assert_eq!(state.output_voltage(), 12000);
    state.output_enabled = false;
    assert_eq!(state.output_voltage(), 0);
}

#[test]
fn opening_the_switch_enables_the_output() {
    let mut state = State::new(true);
    state.set_voltage(5000);
    assert_eq!(state.output_voltage(), 0);
    state.set_output_switch_state(false);
    assert!(state.output_enabled);
    assert_eq!(state.output_voltage(), 5000);
    assert_eq!(status(&state), "5000 mV Off");
    state.set_output_switch_state(true);
    assert!(state.output_enabled);
    assert_eq!(state.output_voltage(), 5000);
    assert_eq!(status(&state), "5000 mV On");
}

#[test]
fn closing_the_switch_leaves_a_disabled_output_disabled() {
    let mut state = State::new(true);
    state.set_output_switch_state(true);
    assert!(!state.output_enabled);
    state.set_output_switch_state(true);
    assert!(!state.output_enabled);
    assert_eq!(status(&state), "0 mV Disabled");
}

#[test]
fn every_open_switch_reading_leaves_the_output_enabled() {
    let readings = [true, true, false, true, false, false, true, true, false];
    for start in [false, true] {
        for disable_first in [false, true] {
            let mut state = State::new(start);
            state.set_voltage(3300);
            for closed in readings {
                if disable_first {
                    state.output_enabled = false;
                }
                state.set_output_switch_state(closed);
                if !closed {
                    assert!(state.output_enabled);
                    assert_eq!(state.output_voltage(), 3300);
                } else if disable_first {
                    assert_eq!(state.output_voltage(), 0);
                }
            }
        }
    }
}

#[test]
fn set_voltage_writes_the_commanded_voltage_only() {
    let mut state = State::new(false);
    state.set_voltage(1234);
    assert!(state.output_enabled);
    assert_eq!(state.output_voltage(), 1234);
    assert_eq!(status(&state), "1234 mV Off");
    state.set_voltage(0);
    assert_eq!(state.output_voltage(), 0);
    assert_eq!(status(&state), "0 mV Off");
    state.set_voltage(65535);
    assert_eq!(state.output_voltage(), 65535);
    assert_eq!(status(&state), "65535 mV Off");
}

#[test]
fn status_shows_the_commanded_voltage_while_disabled() {
    let mut state = State::new(true);
    state.set_voltage(18950);
    assert_eq!(state.output_voltage(), 0);
    assert_eq!(status(&state), "18950 mV Disabled");
    state.output_enabled = true;
    assert_eq!(status(&state), "18950 mV On");
    state.set_output_switch_state(false);
    assert_eq!(status(&state), "18950 mV Off");
}

#[test]
fn longest_status_fits_the_buffer() {
    let mut state = State::new(true);
    state.set_voltage(65535);
    let text = state.get_display().unwrap();
    assert_eq!(text.as_str(), "65535 mV Disabled");
    assert_eq!(text.len(), 17);
}

#[test]
fn only_a_voltage_command_writes_the_state() {
    let mut state = State::new(false);
    assert!(state.apply(Command::Voltage(2500)));
    assert_eq!(state.output_voltage(), 2500);
    assert!(!state.apply(Command::Current(100)));
    assert!(!state.apply(Command::OutputOff));
    assert!(!state.apply(Command::OutputOn));
    assert!(state.output_enabled);
    assert_eq!(state.output_voltage(), 2500);
    assert_eq!(status(&state), "2500 mV Off");
}

#[test]
fn state_changed_derives_voltage_and_status() {
    let mut state = State::new(false);
    state.set_voltage(4200);
    state.set_output_switch_state(true);
    let outputs = state.state_changed();
    assert_eq!(outputs.millivolts, 4200);
    assert_eq!(outputs.status.as_str(), "4200 mV On");

    state.output_enabled = false;
    let outputs = state.state_changed();
    assert_eq!(outputs.millivolts, 0);
    assert_eq!(outputs.status.as_str(), "4200 mV Disabled");
}

#[test]
fn state_changed_twice_gives_the_same_outputs() {
    for closed in [false, true] {
        for voltage in [0u16, 1, 1291, 5000, 20241, 65535] {
            let mut state = State::new(closed);
            state.set_voltage(voltage);
            let first = state.state_changed();
            let second = state.state_changed();
            assert_eq!(first.millivolts, second.millivolts);
            assert_eq!(first.status, second.status);
            assert_eq!(first.status.as_str(), status(&state));
            assert_eq!(first.millivolts, state.output_voltage());
        }
    }
}
