//! Core logic of the FocusFlow Pomodoro timer: the countdown state machine,
//! daily statistics with streaks and a weekly history, the project list, and
//! the texts that the interface shows for them.

pub mod projects;
pub mod session;
pub mod settings;
pub mod stats;
pub mod text;
pub mod timer;

use vstd::prelude::*;

verus! {

/// The views of the app.
#[derive(Clone, Copy, Debug, PartialEq, Eq, Structural)]
pub enum Tab {
    Focus,
    Projects,
    Stats,
}

} // verus!
