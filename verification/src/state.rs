//! The device state: the commanded voltage, the position of the output
//! switch and whether the output is enabled.

use crate::interface::Command;
use crate::text::{
    decimal, empty_text, format_u16, lemma_ascii_bytes, lemma_decimal_shape, new_buffer,
    push_text, text_of, CapacityExceeded,
};
use arrayvec::ArrayString;
use vstd::prelude::*;
use vstd::utf8::is_ascii_chars_concat;

verus! {

/// What the supply is set to do.
pub struct State {
    set_voltage: u16,
    output_switch_state: bool,
    /// Whether the output follows the commanded voltage.
    pub output_enabled: bool,
}

/// The device state as plain values.
pub struct StateView {
    /// The commanded voltage, in millivolts.
    pub millivolts: nat,
    /// Whether the output switch is closed.
    pub switch_closed: bool,
    /// Whether the output follows the commanded voltage.
    pub output_enabled: bool,
}

impl View for State {
    type V = StateView;

    closed spec fn view(&self) -> StateView {
        StateView {
            millivolts: self.set_voltage as nat,
            switch_closed: self.output_switch_state,
            output_enabled: self.output_enabled,
        }
    }
}

/// What is derived from the device state whenever it changed.
#[derive(Clone, Copy, Debug)]
pub struct Outputs {
    /// The voltage to drive to the output, in millivolts.
    pub millivolts: u16,
    /// The text of the status line.
    pub status: ArrayString<32>,
}

impl StateView {
    /// Whether `outputs` are the outputs that this state calls for.
    pub open spec fn derives(self, outputs: Outputs) -> bool {
        outputs.millivolts == self.output_millivolts() && text_of(outputs.status)
            == self.status_text()
    }

    /// The voltage driven to the output: the commanded voltage while the
    /// output is enabled, zero otherwise.
    pub open spec fn output_millivolts(self) -> nat {
        if self.output_enabled {
            self.millivolts
        } else {
            0
        }
    }

    /// The state after the output switch was sensed at `closed`: opening the
    /// switch re-enables the output, closing it changes nothing else.
    pub open spec fn with_switch(self, closed: bool) -> StateView {
        StateView {
            millivolts: self.millivolts,
            switch_closed: closed,
            output_enabled: self.output_enabled || !closed,
        }
    }

    /// The state after the voltage was set to `millivolts`.
    pub open spec fn with_voltage(self, millivolts: nat) -> StateView {
        StateView { millivolts, switch_closed: self.switch_closed, output_enabled: self.output_enabled }
    }

    /// The state after `command` took effect. Only a voltage command acts on
    /// the device state.
    pub open spec fn after(self, command: Command) -> StateView {
        match command {
            Command::Voltage(millivolts) => self.with_voltage(millivolts as nat),
            _ => self,
        }
    }

    /// The word that follows the voltage on the status line.
    pub open spec fn status_word(self) -> Seq<char> {
        if self.output_enabled {
            if self.switch_closed {
                "On"@
            } else {
                "Off"@
            }
        } else {
            "Disabled"@
        }
    }

    /// What the status line shows.
    pub open spec fn status_text(self) -> Seq<char> {
        decimal(self.millivolts) + " mV "@ + self.status_word()
    }
}

impl State {
    /// The state at power-up, from the sensed position of the output switch:
    /// nothing commanded yet, and the output enabled only if the switch is
    /// open.
    pub fn new(output_switch_state: bool) -> (state: Self)
        ensures
            state@ == (StateView {
                millivolts: 0,
                switch_closed: output_switch_state,
                output_enabled: !output_switch_state,
            }),
    {
        Self { set_voltage: 0, output_switch_state, output_enabled: !output_switch_state }
    }

    /// The voltage to drive to the output, in millivolts.
    pub fn output_voltage(&self) -> (millivolts: u16)
        ensures
            millivolts == self@.output_millivolts(),
    {
        if self.output_enabled {
            self.set_voltage
        } else {
            0
        }
    }

    /// Records the sensed position of the output switch.
    pub fn set_output_switch_state(&mut self, new: bool)
        ensures
            final(self)@ == old(self)@.with_switch(new),
    {
        self.output_switch_state = new;
        if new == false {
            self.output_enabled = true;
        }
    }

    /// Sets the commanded voltage, in millivolts.
    pub fn set_voltage(&mut self, voltage: u16)
        ensures
            final(self)@ == old(self)@.with_voltage(voltage as nat),
    {
        self.set_voltage = voltage;
    }

    /// Carries out `command` on the device state and tells whether the state
    /// was written, in which case the outputs derived from it are due for
    /// recomputation.
    pub fn apply(&mut self, command: Command) -> (written: bool)
        ensures
            final(self)@ == old(self)@.after(command),
            written == (command is Voltage),
            !written ==> final(self)@ == old(self)@,
    {
        match command {
            Command::Voltage(millivolts) => {
                self.set_voltage(millivolts);
                true
            },
            _ => false,
        }
    }

    /// Renders the status line.
    pub fn get_display(&self) -> (r: Result<ArrayString<32>, CapacityExceeded>)
        ensures
            r matches Ok(text) && text_of(text) == self@.status_text(),
    {
        Ok(self.status_line())
    }

    /// What the state-changed handler derives from the state: the voltage to
    /// drive and the status line to show. The state itself is left alone.
    pub fn state_changed(&self) -> (outputs: Outputs)
        ensures
            self@.derives(outputs),
    {
        Outputs { millivolts: self.output_voltage(), status: self.status_line() }
    }

    fn status_line(&self) -> (text: ArrayString<32>)
        ensures
            text_of(text) == self@.status_text(),
    {
        let mut result = empty_text();
        let mut buffer = new_buffer();
        proof {
            lemma_decimal_shape(self.set_voltage as nat);
            lemma_ascii_bytes(decimal(self.set_voltage as nat));
            lemma_ascii_bytes(Seq::<char>::empty());
        }
        push_text(&mut result, format_u16(&mut buffer, self.set_voltage));
        proof {
            reveal_strlit(" mV ");
            lemma_ascii_bytes(" mV "@);
            assert(text_of(result) =~= decimal(self.set_voltage as nat));
        }
        push_text(&mut result, " mV ");
        proof {
            reveal_strlit("On");
            reveal_strlit("Off");
            reveal_strlit("Disabled");
            lemma_ascii_bytes(self@.status_word());
            is_ascii_chars_concat(text_of(result), decimal(self.set_voltage as nat), " mV "@);
            lemma_ascii_bytes(text_of(result));
        }
        if self.output_enabled {
            if self.output_switch_state {
                push_text(&mut result, "On");
            } else {
                push_text(&mut result, "Off");
            }
        } else {
            push_text(&mut result, "Disabled");
        }
        result
    }
}

/// The state after the output switch was sensed at each of `changes` in
/// turn.
pub open spec fn after_switch_changes(state: StateView, changes: Seq<bool>) -> StateView
    decreases changes.len(),
{
    if changes.len() == 0 {
        state
    } else {
        after_switch_changes(state, changes.drop_last()).with_switch(changes.last())
    }
}

/// Whatever came before, right after the switch was sensed open the output
/// is enabled. No sequence of switch changes alters the commanded voltage or
/// disables an enabled output.
pub proof fn lemma_switch_changes(state: StateView, changes: Seq<bool>)
    ensures
        changes.len() > 0 && !changes.last() ==> after_switch_changes(state, changes).output_enabled,
        after_switch_changes(state, changes).millivolts == state.millivolts,
        state.output_enabled ==> after_switch_changes(state, changes).output_enabled,
    decreases changes.len(),
{
    if changes.len() > 0 {
        lemma_switch_changes(state, changes.drop_last());
    }
}

/// The driven voltage is zero while the output is disabled and the
/// commanded voltage otherwise.
pub proof fn lemma_output_voltage(state: StateView)
    ensures
        !state.output_enabled ==> state.output_millivolts() == 0,
        state.output_enabled ==> state.output_millivolts() == state.millivolts,
{
}

/// Deriving the outputs again from an unchanged state gives the same
/// voltage and the same status text.
pub proof fn lemma_state_changed_idempotent(state: StateView, first: Outputs, second: Outputs)
    requires
        state.derives(first),
        state.derives(second),
    ensures
        first.millivolts == second.millivolts,
        text_of(first.status) == text_of(second.status),
{
}

} // verus!
