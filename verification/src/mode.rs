//! The mode a session is in, gating which actions a key may trigger.

use vstd::prelude::*;

verus! {

/// The mode in which the application is.
#[derive(Clone, Copy, Debug, PartialEq, Eq, Structural)]
pub enum Mode {
    /// NORMAL is the navigation mode, where the user moves around in the data.
    Normal,
    /// INSERT lets the user edit cells of the structured data.
    Insert,
    /// PEEKING lets the user peek data out of the application.
    Peeking,
}

impl Mode {
    /// The mode a fresh session starts in.
    pub fn default() -> (m: Mode)
        ensures
            m == Mode::Normal,
    {
        Mode::Normal
    }

    /// The name of the mode, as shown in a status bar.
    pub fn label(&self) -> (r: &'static str)
        ensures
            *self == Mode::Normal ==> r@ == "NORMAL"@,
            *self == Mode::Insert ==> r@ == "INSERT"@,
            *self == Mode::Peeking ==> r@ == "PEEKING"@,
    {
        match self {
            Mode::Normal => "NORMAL",
            Mode::Insert => "INSERT",
            Mode::Peeking => "PEEKING",
        }
    }
}

} // verus!
