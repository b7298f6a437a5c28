//! The command interpreter: a state machine fed one key at a time.
//!
//! Numbers are typed in thousandths of the unit, so the interpreter works on
//! millivolts and milliamperes throughout.

use crate::text::{
    decimal, empty_text, format_u16, from_str, lemma_ascii_bytes, lemma_decimal_shape,
    new_buffer, push_text, text_of, CapacityExceeded,
};
use arrayvec::ArrayString;
use vstd::prelude::*;

verus! {

/// A completed user request.
#[derive(Clone, Copy, Debug, PartialEq, Eq, Structural)]
pub enum Command {
    /// Set the output voltage, in millivolts.
    Voltage(u16),
    /// Set the current limit, in milliamperes.
    Current(u16),
    /// Enable the output.
    OutputOn,
    /// Disable the output.
    OutputOff,
}

/// Where the interpreter stands in a dialogue.
#[derive(Clone, Copy, Debug, PartialEq, Eq, Structural)]
pub enum State {
    /// The main menu.
    Start,
    /// A voltage is being typed; the field holds the millivolts so far.
    InputVoltage(u16),
    /// A finished command awaits a yes or no.
    Confirm(Command),
    /// A current is being typed; the field holds the milliamperes so far.
    InputCurrent(u16),
    /// The output on/off prompt.
    ToggleOutput,
}

/// Whether `c` is one of the decimal digits `'0'` to `'9'`.
pub open spec fn is_digit(c: char) -> bool {
    '0' <= c <= '9'
}

/// The value of the decimal digit `c`.
pub open spec fn digit_value(c: char) -> nat
    recommends
        is_digit(c),
{
    (c as nat - '0' as nat) as nat
}

/// The accumulator after the key `digit`: a decimal digit is appended to
/// `val`, keeping the low sixteen bits; any other key leaves `val` as it is.
pub open spec fn append_digit(val: u16, digit: char) -> u16 {
    if is_digit(digit) {
        ((val as nat * 10 + digit_value(digit)) % 0x1_0000) as u16
    } else {
        val
    }
}

impl State {
    /// The transition table: the successor state and the command emitted,
    /// if any, when `input` arrives in state `self`.
    pub open spec fn transition(self, input: char) -> (State, Option<Command>) {
        match self {
            State::Start => if input == '1' {
                (State::InputVoltage(0), None)
            } else if input == '2' {
                (State::InputCurrent(0), None)
            } else if input == '3' {
                (State::ToggleOutput, None)
            } else {
                (self, None)
            },
            State::InputVoltage(val) => if input == 'b' {
                (State::Start, None)
            } else if input == 'a' {
                (State::Confirm(Command::Voltage(val)), None)
            } else {
                (State::InputVoltage(append_digit(val, input)), None)
            },
            State::InputCurrent(val) => if input == 'b' {
                (State::Start, None)
            } else if input == 'a' {
                (State::Confirm(Command::Current(val)), None)
            } else {
                (State::InputCurrent(append_digit(val, input)), None)
            },
            State::Confirm(command) => if input == '1' {
                (State::Start, Some(command))
            } else if input == '2' {
                (State::Start, None)
            } else {
                (self, None)
            },
            State::ToggleOutput => if input == '1' {
                (State::Start, Some(Command::OutputOn))
            } else if input == '2' {
                (State::Start, Some(Command::OutputOff))
            } else {
                (self, None)
            },
        }
    }

    /// What the first display line shows in state `self`.
    pub open spec fn display_text(self) -> Seq<char> {
        match self {
            State::Start => "1:V 2:A 3:I/o"@,
            State::InputCurrent(val) => decimal(val as nat) + " mA"@,
            State::InputVoltage(val) => decimal(val as nat) + " mV"@,
            State::Confirm(_) => "Confirm 1:y 2:n"@,
            State::ToggleOutput => "1:On 2:Off"@,
        }
    }

    /// Feeds one key to the interpreter.
    pub fn update(self, input: char) -> (next: (Self, Option<Command>))
        ensures
            next == self.transition(input),
    {
        match (self, input) {
            (State::Start, '1') => (State::InputVoltage(0), None),
            (State::Start, '2') => (State::InputCurrent(0), None),
            (State::Start, '3') => (State::ToggleOutput, None),
            (State::InputVoltage(_), 'b') => (State::Start, None),
            (State::InputVoltage(val), 'a') => (State::Confirm(Command::Voltage(val)), None),
            (State::InputVoltage(val), _) => (State::InputVoltage(add_digit(val, input)), None),
            (State::InputCurrent(_), 'b') => (State::Start, None),
            (State::InputCurrent(val), 'a') => (State::Confirm(Command::Current(val)), None),
            (State::InputCurrent(val), _) => (State::InputCurrent(add_digit(val, input)), None),
            (State::Confirm(command), '1') => (State::Start, Some(command)),
            (State::Confirm(_), '2') => (State::Start, None),
            (State::ToggleOutput, '1') => (State::Start, Some(Command::OutputOn)),
            (State::ToggleOutput, '2') => (State::Start, Some(Command::OutputOff)),
            (state, _) => (state, None),
        }
    }

    /// Renders the first display line for this state.
    pub fn get_display(&self) -> (r: Result<ArrayString<32>, CapacityExceeded>)
        ensures
            r matches Ok(text) && text_of(text) == self.display_text(),
    {
        match *self {
            State::Start => {
                proof {
                    reveal_strlit("1:V 2:A 3:I/o");
                    lemma_ascii_bytes("1:V 2:A 3:I/o"@);
                }
                from_str("1:V 2:A 3:I/o")
            },
            State::InputCurrent(val) => {
                let mut result = empty_text();
                let mut buffer = new_buffer();
                proof {
                    lemma_decimal_shape(val as nat);
                    lemma_ascii_bytes(decimal(val as nat));
                    lemma_ascii_bytes(Seq::<char>::empty());
                }
                push_text(&mut result, format_u16(&mut buffer, val));
                proof {
                    reveal_strlit(" mA");
                    lemma_ascii_bytes(" mA"@);
                    assert(text_of(result) =~= decimal(val as nat));
                }
                push_text(&mut result, " mA");
                Ok(result)
            },
            State::InputVoltage(val) => {
                let mut result = empty_text();
                let mut buffer = new_buffer();
                proof {
                    lemma_decimal_shape(val as nat);
                    lemma_ascii_bytes(decimal(val as nat));
                    lemma_ascii_bytes(Seq::<char>::empty());
                }
                push_text(&mut result, format_u16(&mut buffer, val));
                proof {
                    reveal_strlit(" mV");
                    lemma_ascii_bytes(" mV"@);
                    assert(text_of(result) =~= decimal(val as nat));
                }
                push_text(&mut result, " mV");
                Ok(result)
            },
            State::Confirm(_) => {
                proof {
                    reveal_strlit("Confirm 1:y 2:n");
                    lemma_ascii_bytes("Confirm 1:y 2:n"@);
                }
                from_str("Confirm 1:y 2:n")
            },
            State::ToggleOutput => {
                proof {
                    reveal_strlit("1:On 2:Off");
                    lemma_ascii_bytes("1:On 2:Off"@);
                }
                from_str("1:On 2:Off")
            },
        }
    }
}

/// Appends the key `digit` to the number typed so far.
pub fn add_digit(val: u16, digit: char) -> (r: u16)
    ensures
        r == append_digit(val, digit),
{
    match char_to_num(digit) {
        Some(d) => {
            let scaled: u16 = val.wrapping_mul(10);
            assert(scaled == (val as nat * 10) % 0x1_0000);
            assert((scaled + d) % 0x1_0000 == (val as nat * 10 + d as nat) % 0x1_0000) by {
                vstd::arithmetic::div_mod::lemma_add_mod_noop(
                    (val * 10) as int,
                    d as int,
                    0x1_0000,
                );
                vstd::arithmetic::div_mod::lemma_small_mod(d as nat, 0x1_0000);
            }
            scaled.wrapping_add(d as u16)
        },
        None => val,
    }
}

/// The value of a decimal digit key, or `None` for any other key.
pub fn char_to_num(digit: char) -> (r: Option<u8>)
    ensures
        r == if is_digit(digit) {
            Some(digit_value(digit) as u8)
        } else {
            None
        },
{
    if '0' <= digit && digit <= '9' {
        Some(digit as u8 - 48)
    } else {
        None
    }
}

/// The state reached, and the command emitted by the last key, when the keys
/// `inputs` are fed in order to an interpreter in state `state`.
pub open spec fn run(state: State, inputs: Seq<char>) -> (State, Option<Command>)
    decreases inputs.len(),
{
    if inputs.len() == 0 {
        (state, None)
    } else {
        run(state, inputs.drop_last()).0.transition(inputs.last())
    }
}

/// Whether every key in `keys` is a decimal digit.
pub open spec fn all_digits(keys: Seq<char>) -> bool {
    forall|i: int| 0 <= i < keys.len() ==> is_digit(#[trigger] keys[i])
}

/// The digits `digits` read as a decimal integer; the empty sequence reads
/// as zero.
pub open spec fn number(digits: Seq<char>) -> nat
    decreases digits.len(),
{
    if digits.len() == 0 {
        0
    } else {
        number(digits.drop_last()) * 10 + digit_value(digits.last())
    }
}

/// What the sixteen-bit accumulator holds after `digits` were typed.
pub open spec fn typed(digits: Seq<char>) -> u16 {
    (number(digits) % 0x1_0000) as u16
}

/// Feeding one more key continues from where the earlier keys ended.
pub proof fn lemma_run_push(state: State, inputs: Seq<char>, key: char)
    ensures
        run(state, inputs.push(key)) == run(state, inputs).0.transition(key),
{
    assert(inputs.push(key).drop_last() =~= inputs);
}

/// After the menu key `'1'` or `'2'`, typing digits accumulates their
/// decimal value, modulo 2^16, in the matching entry state.
pub proof fn lemma_digits_accumulate(digits: Seq<char>)
    requires
        all_digits(digits),
    ensures
        run(State::Start, seq!['1'] + digits) == (State::InputVoltage(typed(digits)), None::<Command>),
        run(State::Start, seq!['2'] + digits) == (State::InputCurrent(typed(digits)), None::<Command>),
    decreases digits.len(),
{
    if digits.len() == 0 {
        assert(seq!['1'] + digits =~= Seq::<char>::empty().push('1'));
        assert(seq!['2'] + digits =~= Seq::<char>::empty().push('2'));
        lemma_run_push(State::Start, Seq::empty(), '1');
        lemma_run_push(State::Start, Seq::empty(), '2');
    } else {
        let front = digits.drop_last();
        let key = digits.last();
        lemma_digits_accumulate(front);
        assert(seq!['1'] + digits =~= (seq!['1'] + front).push(key));
        assert(seq!['2'] + digits =~= (seq!['2'] + front).push(key));
        lemma_run_push(State::Start, seq!['1'] + front, key);
        lemma_run_push(State::Start, seq!['2'] + front, key);
        assert(is_digit(key));
        assert(append_digit(typed(front), key) == typed(digits)) by {
            let n = number(front) as int;
            let d = digit_value(key) as int;
            vstd::arithmetic::div_mod::lemma_mul_mod_noop_left(n, 10, 0x1_0000);
            vstd::arithmetic::div_mod::lemma_add_mod_noop(n * 10, d, 0x1_0000);
            vstd::arithmetic::div_mod::lemma_add_mod_noop((n % 0x1_0000) * 10, d, 0x1_0000);
        }
    }
}

/// Entering a number and accepting it: from the menu, `'1'` (or `'2'`), any
/// digits, `'a'` and then `'1'` return to the menu and emit the voltage (or
/// current) command carrying the digits read as a decimal integer, modulo
/// 2^16; a number of up to 65535 is carried as it was typed.
pub proof fn lemma_confirmed_entry(digits: Seq<char>)
    requires
        all_digits(digits),
    ensures
        run(State::Start, seq!['1'] + digits + seq!['a', '1']) == (
            State::Start,
            Some(Command::Voltage(typed(digits))),
        ),
        run(State::Start, seq!['2'] + digits + seq!['a', '1']) == (
            State::Start,
            Some(Command::Current(typed(digits))),
        ),
        number(digits) <= u16::MAX ==> typed(digits) == number(digits),
{
    lemma_digits_accumulate(digits);
    assert(seq!['1'] + digits + seq!['a', '1'] =~= (seq!['1'] + digits).push('a').push('1'));
    assert(seq!['2'] + digits + seq!['a', '1'] =~= (seq!['2'] + digits).push('a').push('1'));
    lemma_run_push(State::Start, seq!['1'] + digits, 'a');
    lemma_run_push(State::Start, (seq!['1'] + digits).push('a'), '1');
    lemma_run_push(State::Start, seq!['2'] + digits, 'a');
    lemma_run_push(State::Start, (seq!['2'] + digits).push('a'), '1');
}

/// Entering a number and rejecting it: `'2'` at the confirmation prompt
/// returns to the menu and emits nothing, whatever was typed.
pub proof fn lemma_rejected_entry(digits: Seq<char>)
    requires
        all_digits(digits),
    ensures
        run(State::Start, seq!['1'] + digits + seq!['a', '2']) == (State::Start, None::<Command>),
        run(State::Start, seq!['2'] + digits + seq!['a', '2']) == (State::Start, None::<Command>),
{
    lemma_digits_accumulate(digits);
    assert(seq!['1'] + digits + seq!['a', '2'] =~= (seq!['1'] + digits).push('a').push('2'));
    assert(seq!['2'] + digits + seq!['a', '2'] =~= (seq!['2'] + digits).push('a').push('2'));
    lemma_run_push(State::Start, seq!['1'] + digits, 'a');
    lemma_run_push(State::Start, (seq!['1'] + digits).push('a'), '2');
    lemma_run_push(State::Start, seq!['2'] + digits, 'a');
    lemma_run_push(State::Start, (seq!['2'] + digits).push('a'), '2');
}

/// The back key `'b'` during entry discards the digits typed so far,
/// however many, and returns to the menu without a command.
pub proof fn lemma_back_discards(digits: Seq<char>)
    requires
        all_digits(digits),
    ensures
        run(State::Start, seq!['1'] + digits + seq!['b']) == (State::Start, None::<Command>),
        run(State::Start, seq!['2'] + digits + seq!['b']) == (State::Start, None::<Command>),
{
    lemma_digits_accumulate(digits);
    assert(seq!['1'] + digits + seq!['b'] =~= (seq!['1'] + digits).push('b'));
    assert(seq!['2'] + digits + seq!['b'] =~= (seq!['2'] + digits).push('b'));
    lemma_run_push(State::Start, seq!['1'] + digits, 'b');
    lemma_run_push(State::Start, seq!['2'] + digits, 'b');
}

} // verus!
