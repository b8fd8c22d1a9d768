//! The lifecycle of a handler: it is either running or halted.

use vstd::prelude::*;

verus! {

/// Whether a handler currently accepts messages.
#[derive(Debug, PartialEq, Eq, Structural, Copy, Clone)]
pub enum StateValue {
    /// Up and running: messages are processed.
    Running,
    /// Halted for some reason: messages are skipped until resumed.
    Halted,
}

/// A holder of a [`StateValue`] that starts out as `Running`.
#[derive(Debug)]
pub struct SimpleState {
    value: StateValue,
}

impl View for SimpleState {
    type V = StateValue;

    closed spec fn view(&self) -> StateValue {
        self.value
    }
}

impl Default for SimpleState {
    fn default() -> (s: Self)
        ensures
            s@ == StateValue::Running,
    {
        Self { value: StateValue::Running }
    }
}

impl core::ops::Deref for SimpleState {
    type Target = StateValue;

    fn deref(&self) -> (v: &StateValue)
        ensures
            *v == self@,
    {
        &self.value
    }
}

impl core::ops::DerefMut for SimpleState {
    fn deref_mut(&mut self) -> (v: &mut StateValue)
        ensures
            *v == old(self)@,
            final(self)@ == *final(v),
    {
        &mut self.value
    }
}

impl AsRef<StateValue> for SimpleState {
    fn as_ref(&self) -> (v: &StateValue)
        ensures
            *v == self@,
    {
        &self.value
    }
}

impl AsMut<StateValue> for SimpleState {
    fn as_mut(&mut self) -> (v: &mut StateValue)
        ensures
            *v == old(self)@,
            final(self)@ == *final(v),
    {
        &mut self.value
    }
}

} // verus!
