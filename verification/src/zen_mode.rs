use vstd::prelude::*;

verus! {

/// Whether zen mode, the distraction-free layout, is on.
#[derive(Debug, Clone, Copy, PartialEq, Eq, Structural)]
pub struct ZenModeState {
    enabled: bool,
}

impl View for ZenModeState {
    type V = bool;

    closed spec fn view(&self) -> bool {
        self.enabled
    }
}

impl ZenModeState {
    /// Zen mode, on or off as given.
    pub fn new(enabled: bool) -> (r: ZenModeState)
        ensures
            r@ == enabled,
    {
        ZenModeState { enabled }
    }

    /// Whether zen mode is on.
    pub fn is_enabled(&self) -> (r: bool)
        ensures
            r == self@,
    {
        self.enabled
    }

    /// Turns zen mode off if it is on, and on if it is off.
    pub fn toggle(&mut self)
        ensures
            final(self)@ == !old(self)@,
    {
        self.enabled = !self.enabled;
    }

    /// Turns zen mode on or off.
    pub fn set_enabled(&mut self, enabled: bool)
        ensures
            final(self)@ == enabled,
    {
        self.enabled = enabled;
    }
}

impl Default for ZenModeState {
    /// Zen mode off.
    fn default() -> (r: ZenModeState)
        ensures
            r@ == false,
    {
        ZenModeState { enabled: false }
    }
}

/// Toggling zen mode twice leaves it as it was.
pub proof fn lemma_toggle_twice(before: ZenModeState, middle: ZenModeState, after: ZenModeState)
    requires
        middle@ == !before@,
        after@ == !middle@,
    ensures
        after@ == before@,
{
}

} // verus!
