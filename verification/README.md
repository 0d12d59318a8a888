# focusflow

The logic of FocusFlow, a Pomodoro timer for the browser, as a library
verified with Verus, and the Leptos interface around it.

- `src/timer.rs`: the countdown state machine (start, pause, reset, focus and
  break modes, clock ticks, phase ends, automatic start) and its texts.
- `src/stats.rs`: daily counts, streaks, totals and the weekly history, keyed
  by local `YYYY-MM-DD` dates.
- `src/session.rs`: a clock tick applied to the timer and the statistics
  together.
- `src/projects.rs`: the project list (adding, deleting, choosing the project
  being worked on) and its labels. A project's status is set when it is
  created; there is no operation that marks a project complete.
- `src/settings.rs`: the preferences and the phase lengths they give.
- `src/text.rs`: decimal rendering and parsing, whitespace, date labels.
- `app/`: the Leptos components, local storage, the browser clock,
  notifications and the beep. It reads the clock and storage, calls the
  library, and shows what the library returns.
