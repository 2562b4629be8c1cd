//! What the event loop hands to the simulation: the time step of a tick and
//! the buttons that were pressed or released.

use vstd::prelude::*;

verus! {

/// The arguments of one tick.
#[derive(Clone, Copy, PartialEq, Eq, Structural, Debug)]
pub struct UpdateArgs {
    /// The time since the last tick in seconds, in fixed point.
    pub dt: i64,
}

/// The keys that the simulation tells apart.
#[derive(Clone, Copy, PartialEq, Eq, Structural, Debug)]
pub enum Key {
    Space,
    Up,
    P,
    /// Any other key.
    Other,
}

/// The mouse buttons that the simulation tells apart.
#[derive(Clone, Copy, PartialEq, Eq, Structural, Debug)]
pub enum MouseButton {
    Left,
    /// Any other mouse button.
    Other,
}

/// A button of some input device.
#[derive(Clone, Copy, PartialEq, Eq, Structural, Debug)]
pub enum Button {
    Keyboard(Key),
    Mouse(MouseButton),
    /// A button of a device that the simulation does not listen to.
    Other,
}

/// The arguments of a button event.
#[derive(Clone, Copy, PartialEq, Eq, Structural, Debug)]
pub struct ButtonArgs {
    /// The button that was pressed or released.
    pub button: Button,
}

} // verus!
