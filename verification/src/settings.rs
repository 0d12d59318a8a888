//! The user's preferences, and the phase lengths derived from them.

use vstd::prelude::*;

verus! {

/// The preferences kept between sessions. The sound volume, a fraction
/// between 0 and 1, is kept beside these by the interface: it only scales
/// the beep.
#[derive(Clone, Copy, Debug, PartialEq, Eq, Structural)]
pub struct PersistedSettings {
    pub focus_mins: u32,
    pub break_mins: u32,
    pub total_rounds: u32,
    pub notifications_enabled: bool,
    pub sound_enabled: bool,
    pub auto_start_next: bool,
    pub theme_dark: bool,
}

impl Default for PersistedSettings {
    /// Twenty-five minutes of focus, five of break, four rounds a day,
    /// notifications and sound on, no automatic start, light theme.
    fn default() -> (s: Self)
        ensures
            s == (PersistedSettings {
                focus_mins: 25,
                break_mins: 5,
                total_rounds: 4,
                notifications_enabled: true,
                sound_enabled: true,
                auto_start_next: false,
                theme_dark: false,
            }),
    {
        PersistedSettings {
            focus_mins: 25,
            break_mins: 5,
            total_rounds: 4,
            notifications_enabled: true,
            sound_enabled: true,
            auto_start_next: false,
            theme_dark: false,
        }
    }
}

/// Minutes in seconds, held at `u32::MAX` where the product does not fit
/// (`saturating_mul(60)`).
pub open spec fn minutes_as_secs(mins: u32) -> u32 {
    if mins * 60 > u32::MAX {
        u32::MAX
    } else {
        (mins * 60) as u32
    }
}

/// The length in seconds of a focus phase (`is_focus`) or of a break.
pub open spec fn phase_length(settings: PersistedSettings, is_focus: bool) -> u32 {
    if is_focus {
        minutes_as_secs(settings.focus_mins)
    } else {
        minutes_as_secs(settings.break_mins)
    }
}

fn secs_of_minutes(mins: u32) -> (s: u32)
    ensures
        s == minutes_as_secs(mins),
{
    match mins.checked_mul(60) {
        Some(v) => v,
        None => u32::MAX,
    }
}

/// Seconds in a focus phase.
pub fn focus_secs(settings: &PersistedSettings) -> (s: u32)
    ensures
        s == minutes_as_secs(settings.focus_mins),
{
    secs_of_minutes(settings.focus_mins)
}

/// Seconds in a break.
pub fn break_secs(settings: &PersistedSettings) -> (s: u32)
    ensures
        s == minutes_as_secs(settings.break_mins),
{
    secs_of_minutes(settings.break_mins)
}

/// Seconds in the phase of the given kind.
pub fn phase_secs(settings: &PersistedSettings, is_focus: bool) -> (s: u32)
    ensures
        s == phase_length(*settings, is_focus),
{
    if is_focus {
        focus_secs(settings)
    } else {
        break_secs(settings)
    }
}

} // verus!
