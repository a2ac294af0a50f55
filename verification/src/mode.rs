//! Chinese / English mode: both the configurable shortcut and Caps Lock flip
//! the mode; the hardware lock state itself is never changed.

use vstd::prelude::*;

verus! {

/// Mode state that survives across text fields; XOR-ed with Caps Lock.
pub struct InputMode {
    /// Flipped by every non-repeated toggle shortcut.
    pub inverted: bool,
}

impl InputMode {
    /// The mode the process starts in: nothing toggled yet.
    pub fn new() -> (mode: Self)
        ensures
            !mode.inverted,
    {
        InputMode { inverted: false }
    }

    /// Effective mode; the menu bar and the key handler must both use this.
    pub fn english(&self, caps_lock: bool) -> (english: bool)
        ensures
            english == (caps_lock != self.inverted),
    {
        caps_lock ^ self.inverted
    }

    /// One non-repeated toggle key press.
    pub fn toggle(&mut self)
        ensures
            final(self).inverted == !old(self).inverted,
    {
        self.inverted = !self.inverted;
    }
}

impl Default for InputMode {
    fn default() -> (mode: Self)
        ensures
            !mode.inverted,
    {
        InputMode::new()
    }
}

/// Current mode of the process-wide state, given the physical Caps Lock state.
pub fn english_mode(mode: &InputMode, caps_lock: bool) -> (english: bool)
    ensures
        english == (caps_lock != mode.inverted),
{
    mode.english(caps_lock)
}

/// Flips only the input method's own state: no synthesized key, Caps Lock untouched.
pub fn toggle_mode(mode: &mut InputMode)
    ensures
        final(mode).inverted == !old(mode).inverted,
{
    mode.toggle();
}

/// Every toggle flips the effective mode, whatever the Caps Lock state.
pub proof fn lemma_toggle_flips_mode(before: InputMode, after: InputMode, caps_lock: bool)
    requires
        after.inverted == !before.inverted,
    ensures
        (caps_lock != after.inverted) == !(caps_lock != before.inverted),
{
}

/// Two toggles in a row give back the mode they started from.
pub proof fn lemma_toggle_twice_restores(a: InputMode, b: InputMode, c: InputMode, caps_lock: bool)
    requires
        b.inverted == !a.inverted,
        c.inverted == !b.inverted,
    ensures
        (caps_lock != c.inverted) == (caps_lock != a.inverted),
{
}

/// Caps Lock flips the effective mode too, whatever was toggled.
pub proof fn lemma_caps_lock_flips_mode(mode: InputMode, caps_lock: bool)
    ensures
        (!caps_lock != mode.inverted) == !(caps_lock != mode.inverted),
{
}

} // verus!
