//! The key loop: polls of the keypad, debounced and fed to the command
//! interpreter.
//!
//! A key is processed when it is first seen. While it stays down, further
//! polls that report it are ignored; only a poll that finds no key arms the
//! loop for the same key again.

use crate::interface::{
    all_digits, is_digit, lemma_digits_accumulate, lemma_run_push, typed, Command, State,
};
use crate::keymap::{keymap, legend};
use crate::keypad::translate_coordinate;
use crate::state::StateView;
use crate::text::text_of;
use arrayvec::ArrayString;
use vstd::prelude::*;

verus! {

/// What the key loop remembers between polls.
#[derive(Clone, Copy, Debug)]
pub struct Idle {
    /// The key seen by the last poll, if it saw one.
    pub last_key: Option<char>,
    /// The state of the command interpreter.
    pub interface_state: State,
}

/// What the key loop has to do after a poll.
#[derive(Clone, Copy, Debug)]
pub struct Poll {
    /// The command that the key completed, to be carried out on the device.
    pub command: Option<Command>,
    /// The new text of the first display line, where the key was processed.
    pub message: Option<ArrayString<32>>,
    /// Whether to wait one tick of the debounce timer before the next poll.
    pub wait: bool,
}

/// The character of the key at `coords`, given as `(row, col)`.
pub open spec fn key_char(coords: (u8, u8)) -> char {
    legend(coords.0 as int, coords.1 as int)
}

/// Whether `coords`, given as `(row, col)`, names a key of the keypad.
pub open spec fn on_keypad(coords: (u8, u8)) -> bool {
    coords.0 < 3 && coords.1 < 4
}

impl Idle {
    /// Whether a poll that reports `key` feeds it to the interpreter: a key
    /// is present and differs from the key seen by the last poll.
    pub open spec fn processes(self, key: Option<(u8, u8)>) -> bool {
        key matches Some(coords) && self.last_key != Some(key_char(coords))
    }

    /// The command that a poll reporting `key` completes, if any.
    pub open spec fn emits(self, key: Option<(u8, u8)>) -> Option<Command> {
        if self.processes(key) {
            self.interface_state.transition(key_char(key->0)).1
        } else {
            None
        }
    }

    /// The loop after a poll that reports `key`.
    pub open spec fn after(self, key: Option<(u8, u8)>) -> Idle {
        match key {
            Some(coords) => if self.processes(key) {
                Idle {
                    last_key: Some(key_char(coords)),
                    interface_state: self.interface_state.transition(key_char(coords)).0,
                }
            } else {
                self
            },
            None => Idle { last_key: None, interface_state: self.interface_state },
        }
    }

    /// The loop at start-up: no key seen, the interpreter at its menu.
    pub fn new() -> (idle: Self)
        ensures
            idle == (Idle { last_key: None, interface_state: State::Start }),
    {
        Idle { last_key: None, interface_state: State::Start }
    }

    /// Takes the result of one poll of the keypad: a key first seen is fed to
    /// the interpreter and shown, a key still held is ignored, and no key
    /// arms the loop for the next press. A key that is reported must be a
    /// key of the keypad.
    pub fn poll(&mut self, key: Option<(u8, u8)>) -> (poll: Poll)
        requires
            key matches Some(coords) ==> on_keypad(coords),
        ensures
            *final(self) == old(self).after(key),
            poll.command == old(self).emits(key),
            poll.message is Some <==> old(self).processes(key),
            poll.message matches Some(text) ==> text_of(text) == old(self).after(
                key,
            ).interface_state.display_text(),
            poll.wait == key is Some,
    {
        match key {
            Some(coords) => {
                let table = keymap();
                let key_char = translate_coordinate(coords, &table);
                let mut command: Option<Command> = None;
                let mut message: Option<ArrayString<32>> = None;
                if Some(key_char) != self.last_key {
                    let (new_state, emitted) = self.interface_state.update(key_char);
                    self.interface_state = new_state;
                    command = emitted;
                    message = self.interface_state.get_display().ok();
                    self.last_key = Some(key_char);
                }
                Poll { command, message, wait: true }
            },
            None => {
                self.last_key = None;
                Poll { command: None, message: None, wait: false }
            },
        }
    }
}

/// The loop after `polls` polls in a row that report the key at `coords`.
pub open spec fn held(idle: Idle, coords: (u8, u8), polls: nat) -> Idle
    decreases polls,
{
    if polls == 0 {
        idle
    } else {
        held(idle, coords, (polls - 1) as nat).after(Some(coords))
    }
}

/// A key held down is processed at most once: after the first poll that
/// reports it, any number of further polls that report it leave the loop as
/// it is, and none of them feeds the key to the interpreter.
pub proof fn lemma_held_key(idle: Idle, coords: (u8, u8), polls: nat)
    requires
        polls >= 1,
    ensures
        held(idle, coords, polls) == idle.after(Some(coords)),
        !held(idle, coords, polls).processes(Some(coords)),
        held(idle, coords, polls).emits(Some(coords)) is None,
    decreases polls,
{
    if polls > 1 {
        lemma_held_key(idle, coords, (polls - 1) as nat);
    } else {
        assert(held(idle, coords, 0) == idle);
    }
}

/// A poll that finds no key arms the loop again: the next poll that reports
/// a key processes it, also where it is the key seen before.
pub proof fn lemma_release_arms(idle: Idle, coords: (u8, u8))
    ensures
        idle.after(None).processes(Some(coords)),
        idle.after(None).interface_state == idle.interface_state,
{
}

/// The device state and the interpreter state after the keys `inputs` were
/// processed in order and each completed command was carried out.
pub open spec fn process(device: StateView, state: State, inputs: Seq<char>) -> (StateView, State)
    decreases inputs.len(),
{
    if inputs.len() == 0 {
        (device, state)
    } else {
        let (device, state) = process(device, state, inputs.drop_last());
        let (next, command) = state.transition(inputs.last());
        match command {
            Some(command) => (device.after(command), next),
            None => (device, next),
        }
    }
}

/// Keys that complete no command leave the device state as it is: typing a
/// number changes the interpreter only.
pub proof fn lemma_typing_keeps_device(device: StateView, digits: Seq<char>)
    requires
        all_digits(digits),
    ensures
        process(device, State::Start, seq!['1'] + digits) == (device, State::InputVoltage(typed(digits))),
        process(device, State::Start, seq!['2'] + digits) == (device, State::InputCurrent(typed(digits))),
    decreases digits.len(),
{
    lemma_digits_accumulate(digits);
    if digits.len() == 0 {
        assert(seq!['1'] + digits =~= Seq::<char>::empty().push('1'));
        assert(seq!['2'] + digits =~= Seq::<char>::empty().push('2'));
        lemma_process_push(device, State::Start, Seq::empty(), '1');
        lemma_process_push(device, State::Start, Seq::empty(), '2');
    } else {
        let front = digits.drop_last();
        let key = digits.last();
        lemma_typing_keeps_device(device, front);
        lemma_digits_accumulate(front);
        assert(seq!['1'] + digits =~= (seq!['1'] + front).push(key));
        assert(seq!['2'] + digits =~= (seq!['2'] + front).push(key));
        lemma_process_push(device, State::Start, seq!['1'] + front, key);
        lemma_process_push(device, State::Start, seq!['2'] + front, key);
        lemma_run_push(State::Start, seq!['1'] + front, key);
        lemma_run_push(State::Start, seq!['2'] + front, key);
        assert(is_digit(key));
    }
}

/// Processing one more key continues from where the earlier keys ended.
pub proof fn lemma_process_push(device: StateView, state: State, inputs: Seq<char>, key: char)
    ensures
        process(device, state, inputs.push(key)) == ({
            let (device, state) = process(device, state, inputs);
            let (next, command) = state.transition(key);
            match command {
                Some(command) => (device.after(command), next),
                None => (device, next),
            }
        }),
{
    assert(inputs.push(key).drop_last() =~= inputs);
}

/// A confirmed voltage reaches the device: from the menu, `'1'`, any digits,
/// `'a'` and `'1'` set the commanded voltage to the number typed, modulo
/// 2^16 millivolts, and touch nothing else. A confirmed current leaves the
/// device state as it is.
pub proof fn lemma_confirmed_entry_sets_voltage(device: StateView, digits: Seq<char>)
    requires
        all_digits(digits),
    ensures
        process(device, State::Start, seq!['1'] + digits + seq!['a', '1']) == (
            device.with_voltage(typed(digits) as nat),
            State::Start,
        ),
        process(device, State::Start, seq!['2'] + digits + seq!['a', '1']) == (device, State::Start),
{
    lemma_typing_keeps_device(device, digits);
    assert(seq!['1'] + digits + seq!['a', '1'] =~= (seq!['1'] + digits).push('a').push('1'));
    assert(seq!['2'] + digits + seq!['a', '1'] =~= (seq!['2'] + digits).push('a').push('1'));
    lemma_process_push(device, State::Start, seq!['1'] + digits, 'a');
    lemma_process_push(device, State::Start, (seq!['1'] + digits).push('a'), '1');
    lemma_process_push(device, State::Start, seq!['2'] + digits, 'a');
    lemma_process_push(device, State::Start, (seq!['2'] + digits).push('a'), '1');
}

/// An entry rejected at the confirmation prompt, or left with the back key,
/// changes nothing: the device state is as before and the interpreter is
/// back at its menu.
pub proof fn lemma_abandoned_entry_keeps_device(device: StateView, digits: Seq<char>)
    requires
        all_digits(digits),
    ensures
        process(device, State::Start, seq!['1'] + digits + seq!['a', '2']) == (device, State::Start),
        process(device, State::Start, seq!['2'] + digits + seq!['a', '2']) == (device, State::Start),
        process(device, State::Start, seq!['1'] + digits + seq!['b']) == (device, State::Start),
        process(device, State::Start, seq!['2'] + digits + seq!['b']) == (device, State::Start),
{
    lemma_typing_keeps_device(device, digits);
    assert(seq!['1'] + digits + seq!['a', '2'] =~= (seq!['1'] + digits).push('a').push('2'));
    assert(seq!['2'] + digits + seq!['a', '2'] =~= (seq!['2'] + digits).push('a').push('2'));
    assert(seq!['1'] + digits + seq!['b'] =~= (seq!['1'] + digits).push('b'));
    assert(seq!['2'] + digits + seq!['b'] =~= (seq!['2'] + digits).push('b'));
    lemma_process_push(device, State::Start, seq!['1'] + digits, 'a');
    lemma_process_push(device, State::Start, (seq!['1'] + digits).push('a'), '2');
    lemma_process_push(device, State::Start, seq!['2'] + digits, 'a');
    lemma_process_push(device, State::Start, (seq!['2'] + digits).push('a'), '2');
    lemma_process_push(device, State::Start, seq!['1'] + digits, 'b');
    lemma_process_push(device, State::Start, seq!['2'] + digits, 'b');
}

} // verus!
