//! Sleep, wake and display events on Linux: what the monitor of the system bus,
//! `systemctl` and `xset` say.

use crate::power::events::PowerEvent;
use crate::text;
use crate::text::{
    chars_of, contains, ends_with, split_char, starts_with, trim_chars, trim_end_chars,
    trim_start_chars,
};
use vstd::prelude::*;
use vstd::string::*;

verus! {

/// How often `systemctl` and `xset` are asked, in seconds.
pub const POLL_SECS: u64 = 5;

/// How long to wait before the monitor of the bus is started again, in seconds.
pub const RESTART_SECS: u64 = 2;

/// The event behind a line of the bus monitor: a `PrepareForSleep` signal says
/// whether the machine goes to sleep or has woken up.
pub open spec fn signal(line: Seq<char>) -> Option<PowerEvent> {
    if !text::contains_text(line, "PrepareForSleep"@) {
        None
    } else if text::contains_text(line, "true"@) {
        Some(PowerEvent::Sleep)
    } else {
        Some(PowerEvent::Wake)
    }
}

/// The event behind a line of the bus monitor.
pub fn sleep_signal(line: &str) -> (r: Option<PowerEvent>)
    ensures
        r == signal(line@),
{
    let l = chars_of(line);
    if !contains(&l, "PrepareForSleep") {
        None
    } else if contains(&l, "true") {
        Some(PowerEvent::Sleep)
    } else {
        Some(PowerEvent::Wake)
    }
}

/// The sleep target is active: what `systemctl` printed, as far as it could be run
/// and printed text.
pub open spec fn target_active(stdout: Option<String>) -> bool {
    match stdout {
        Some(s) => text::trim(s@) == "active"@,
        None => false,
    }
}

/// Makes events out of repeated observations: one whenever the observation
/// changes. It serves where the bus monitor cannot be run.
#[derive(Debug, Clone, Copy, PartialEq, Eq, Structural)]
pub struct SleepPoll {
    pub was_sleeping: bool,
}

impl SleepPoll {
    /// Before the first observation the machine counts as awake.
    pub fn new() -> (r: Self)
        ensures
            !r.was_sleeping,
    {
        SleepPoll { was_sleeping: false }
    }

    /// Takes what `systemctl is-active sleep.target` printed.
    pub fn observe(&mut self, stdout: &Option<String>) -> (r: Option<PowerEvent>)
        ensures
            final(self).was_sleeping == target_active(*stdout),
            r == (if target_active(*stdout) == old(self).was_sleeping {
                None
            } else if target_active(*stdout) {
                Some(PowerEvent::Sleep)
            } else {
                Some(PowerEvent::Wake)
            }),
    {
        let is_sleeping = match stdout {
            Some(s) => text::is_text(&trim_chars(&chars_of(s)), "active"),
            None => false,
        };
        if is_sleeping == self.was_sleeping {
            return None;
        }
        self.was_sleeping = is_sleeping;
        if is_sleeping {
            Some(PowerEvent::Sleep)
        } else {
            Some(PowerEvent::Wake)
        }
    }
}

/// The line says what the monitor does.
pub open spec fn monitor_line(line: Seq<char>) -> bool {
    text::has_prefix(text::trim_start(line), "Monitor is"@)
}

/// What the first line that speaks of the monitor says: whether it is on. Standby
/// and suspend are not on.
pub open spec fn first_monitor_state(lines: Seq<Seq<char>>) -> Option<bool>
    decreases lines.len(),
{
    if lines.len() == 0 {
        None
    } else if monitor_line(lines[0]) {
        Some(text::has_suffix(text::trim_end(lines[0]), "On"@))
    } else {
        first_monitor_state(lines.skip(1))
    }
}

/// Whether the monitor is on, by what `xset q` printed.
pub open spec fn monitor_on(stdout: Seq<char>) -> Option<bool> {
    first_monitor_state(text::split_on(stdout, '\n'))
}

/// Whether the monitor is on, by what `xset q` printed; nothing where it says
/// nothing of the monitor.
pub fn dpms_state(stdout: &str) -> (r: Option<bool>)
    ensures
        r == monitor_on(stdout@),
{
    let lines = split_char(&chars_of(stdout), '\n');
    let ghost all = text::split_on(stdout@, '\n');
    let mut i: usize = 0;
    proof {
        assert(all.skip(0) =~= all);
    }
    while i < lines.len()
        invariant
            i <= lines.len(),
            lines@.len() == all.len(),
            forall|k: int| 0 <= k < lines@.len() ==> (#[trigger] lines@[k])@ == all[k],
            first_monitor_state(all) == first_monitor_state(all.skip(i as int)),
            all == text::split_on(stdout@, '\n'),
        decreases lines.len() - i,
    {
        proof {
            assert(all.skip(i as int)[0] == lines@[i as int]@);
            assert(all.skip(i as int).skip(1) =~= all.skip(i + 1));
        }
        if starts_with(&trim_start_chars(&lines[i]), "Monitor is") {
            return Some(ends_with(&trim_end_chars(&lines[i]), "On"));
        }
        i += 1;
    }
    None
}

/// Makes display events out of repeated observations: one whenever the state of
/// the monitor is known and differs from the one known before.
#[derive(Debug, Clone, Copy, PartialEq, Eq, Structural)]
pub struct DisplayPoll {
    pub prev_on: Option<bool>,
}

/// The state after an observation and the event that it makes.
pub open spec fn after_observation(poll: DisplayPoll, on: Option<bool>) -> (
    DisplayPoll,
    Option<PowerEvent>,
) {
    match on {
        None => (poll, None),
        Some(b) => if poll.prev_on == Some(b) {
            (poll, None)
        } else {
            (DisplayPoll { prev_on: Some(b) }, Some(if b {
                PowerEvent::DisplayOn
            } else {
                PowerEvent::DisplayOff
            }))
        },
    }
}

impl DisplayPoll {
    /// Nothing is known yet.
    pub fn new() -> (r: Self)
        ensures
            r.prev_on is None,
    {
        DisplayPoll { prev_on: None }
    }

    /// Takes an observation.
    pub fn observe(&mut self, on: Option<bool>) -> (r: Option<PowerEvent>)
        ensures
            (*final(self), r) == after_observation(*old(self), on),
    {
        match on {
            None => None,
            Some(b) => {
                let same = match self.prev_on {
                    Some(p) => p == b,
                    None => false,
                };
                if same {
                    return None;
                }
                self.prev_on = Some(b);
                if b {
                    Some(PowerEvent::DisplayOn)
                } else {
                    Some(PowerEvent::DisplayOff)
                }
            },
        }
    }
}

/// The events of many observations.
pub open spec fn display_events(observations: Seq<Option<bool>>) -> (DisplayPoll, Seq<PowerEvent>)
    decreases observations.len(),
{
    if observations.len() == 0 {
        (DisplayPoll { prev_on: None }, seq![])
    } else {
        let (before, events) = display_events(observations.drop_last());
        let (after, event) = after_observation(before, observations.last());
        match event {
            Some(e) => (after, events.push(e)),
            None => (after, events),
        }
    }
}

/// The last state that was known.
pub open spec fn last_known(observations: Seq<Option<bool>>) -> Option<bool>
    decreases observations.len(),
{
    if observations.len() == 0 {
        None
    } else if observations.last() is Some {
        observations.last()
    } else {
        last_known(observations.drop_last())
    }
}

/// No event repeats the one before it, and the last one tells the last state that
/// was known.
pub proof fn law_display_events_are_changes(observations: Seq<Option<bool>>)
    ensures
        ({
            let (poll, events) = display_events(observations);
            &&& forall|i: int| 0 < i < events.len() ==> #[trigger] events[i] != events[i - 1]
            &&& poll.prev_on == last_known(observations)
            &&& last_known(observations) is None <==> events.len() == 0
            &&& last_known(observations) matches Some(b) ==> events.last() == (if b {
                PowerEvent::DisplayOn
            } else {
                PowerEvent::DisplayOff
            })
        }),
    decreases observations.len(),
{
    if observations.len() > 0 {
        law_display_events_are_changes(observations.drop_last());
    }
}

/// A sleep signal of the bus says with `true` that the machine goes to sleep and else that
/// it woke up; any other line says nothing.
pub proof fn law_sleep_signals(line: Seq<char>)
    ensures
        !text::contains_text(line, "PrepareForSleep"@) ==> signal(line) is None,
        text::contains_text(line, "PrepareForSleep"@) && text::contains_text(line, "true"@)
            ==> signal(line) == Some(PowerEvent::Sleep),
        text::contains_text(line, "PrepareForSleep"@) && !text::contains_text(line, "true"@)
            ==> signal(line) == Some(PowerEvent::Wake),
{
}

/// The sleep target is active exactly where `active` was printed, with white space around
/// it or not.
pub proof fn law_sleep_target(stdout: Option<String>)
    ensures
        stdout is None ==> !target_active(stdout),
        stdout matches Some(s) ==> (target_active(stdout) <==> text::trim(s@) == "active"@),
{
}

/// The first line that speaks of the monitor counts: the monitor is on where it ends in
/// `On`. Where no line speaks of it nothing is known.
pub proof fn law_the_first_monitor_line_counts(lines: Seq<Seq<char>>, k: int)
    requires
        0 <= k <= lines.len(),
        forall|i: int|
            0 <= i < k ==> !text::has_prefix(text::trim_start(#[trigger] lines[i]), "Monitor is"@),
        k < lines.len() ==> text::has_prefix(text::trim_start(lines[k]), "Monitor is"@),
    ensures
        k == lines.len() ==> first_monitor_state(lines) is None,
        k < lines.len() ==> first_monitor_state(lines) == Some(
            text::has_suffix(text::trim_end(lines[k]), "On"@),
        ),
    decreases k,
{
    if k > 0 {
        let rest = lines.skip(1);
        assert(!monitor_line(lines[0]));
        assert forall|i: int| 0 <= i < k - 1 implies !text::has_prefix(
            text::trim_start(#[trigger] rest[i]),
            "Monitor is"@,
        ) by {
            assert(rest[i] == lines[i + 1]);
        }
        if k < lines.len() {
            assert(rest[k - 1] == lines[k]);
        }
        law_the_first_monitor_line_counts(rest, k - 1);
    }
}

/// Only an observation that differs from the last known one makes an event.
pub proof fn law_observations(prev: Option<bool>, on: bool)
    ensures
        ({
            let poll = DisplayPoll { prev_on: prev };
            &&& after_observation(poll, None) == (poll, None::<PowerEvent>)
            &&& prev == Some(on) ==> after_observation(poll, Some(on)) == (poll, None::<PowerEvent>)
            &&& prev != Some(on) ==> after_observation(poll, Some(on)) == (
                DisplayPoll { prev_on: Some(on) },
                Some(
                    if on {
                        PowerEvent::DisplayOn
                    } else {
                        PowerEvent::DisplayOff
                    },
                ),
            )
        }),
{
}

} // verus!
