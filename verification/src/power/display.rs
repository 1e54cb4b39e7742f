//! Waking the display on Windows.

use crate::text;
use crate::text::{chars_of, eq_ignore_case, from_utf16_lossy, string_of, sub_chars};
use vstd::prelude::*;
use vstd::string::*;

verus! {

/// How long the machine is kept from sleeping after a wake, in milliseconds.
pub const SLEEP_PREVENTION_MS: u64 = 30000;

/// One step of a wake sequence.
#[derive(Debug, Clone, Copy, PartialEq, Eq, Structural)]
pub enum WakeStep {
    /// Terminate the screensaver processes.
    DismissScreensaver,
    /// Turn on all monitors.
    TurnOnMonitor,
    /// Press and release a key that no application listens to.
    BenignKeypress,
    /// Wait, in milliseconds.
    Pause(u64),
    /// Keep the machine from sleeping, in milliseconds.
    PreventSleep(u64),
}

/// The wake sequence: the screensaver goes, the monitors come on, a keypress
/// counts as activity, and sleep is held off for a while.
pub open spec fn wake_sequence() -> Seq<WakeStep> {
    seq![
        WakeStep::DismissScreensaver,
        WakeStep::TurnOnMonitor,
        WakeStep::BenignKeypress,
        WakeStep::PreventSleep(SLEEP_PREVENTION_MS),
    ]
}

/// The steps that wake the display.
pub fn wake_display() -> (r: Vec<WakeStep>)
    ensures
        r@ == wake_sequence(),
{
    vec![
        WakeStep::DismissScreensaver,
        WakeStep::TurnOnMonitor,
        WakeStep::BenignKeypress,
        WakeStep::PreventSleep(SLEEP_PREVENTION_MS),
    ]
}

/// One attempt of a wake with retries.
pub open spec fn wake_attempt() -> Seq<WakeStep> {
    seq![
        WakeStep::DismissScreensaver,
        WakeStep::Pause(50),
        WakeStep::TurnOnMonitor,
        WakeStep::Pause(100),
        WakeStep::BenignKeypress,
    ]
}

/// So many attempts, with a pause between each two.
pub open spec fn wake_attempts(attempts: nat, delay_ms: u64) -> Seq<WakeStep>
    decreases attempts,
{
    if attempts == 0 {
        seq![]
    } else if attempts == 1 {
        wake_attempt()
    } else {
        wake_attempts((attempts - 1) as nat, delay_ms) + seq![WakeStep::Pause(delay_ms)]
            + wake_attempt()
    }
}

/// At least one attempt.
pub open spec fn at_least_one(n: nat) -> nat {
    if n == 0 {
        1
    } else {
        n
    }
}

/// The steps that wake the display with retries. There is always one attempt.
pub fn wake_display_with_retry(max_attempts: usize, delay_ms: u64) -> (r: Vec<WakeStep>)
    ensures
        r@ == wake_attempts(at_least_one(max_attempts as nat), delay_ms).push(
            WakeStep::PreventSleep(SLEEP_PREVENTION_MS),
        ),
{
    let attempts: usize = if max_attempts == 0 {
        1
    } else {
        max_attempts
    };
    let mut out: Vec<WakeStep> = Vec::new();
    let mut done: usize = 0;
    while done < attempts
        invariant
            done <= attempts,
            out@ == wake_attempts(done as nat, delay_ms),
        decreases attempts - done,
    {
        let ghost before = out@;
        if done > 0 {
            out.push(WakeStep::Pause(delay_ms));
        }
        out.push(WakeStep::DismissScreensaver);
        out.push(WakeStep::Pause(50));
        out.push(WakeStep::TurnOnMonitor);
        out.push(WakeStep::Pause(100));
        out.push(WakeStep::BenignKeypress);
        done += 1;
        proof {
            if done == 1 {
                assert(out@ =~= wake_attempt());
            } else {
                assert(out@ =~= before + seq![WakeStep::Pause(delay_ms)] + wake_attempt());
            }
        }
    }
    out.push(WakeStep::PreventSleep(SLEEP_PREVENTION_MS));
    out
}

/// `s` without its trailing NUL characters.
pub open spec fn without_nuls(s: Seq<char>) -> Seq<char>
    decreases s.len(),
{
    if s.len() > 0 && s.last() == '\0' {
        without_nuls(s.drop_last())
    } else {
        s
    }
}

/// The characters without their trailing NULs.
pub fn strip_nuls(all: &[char]) -> (r: Vec<char>)
    ensures
        r@ == without_nuls(all@),
{
    let mut n: usize = all.len();
    proof {
        assert(all@.take(n as int) =~= all@);
    }
    while n > 0 && all[n - 1] == '\0'
        invariant
            n <= all.len(),
            without_nuls(all@) == without_nuls(all@.take(n as int)),
        decreases n,
    {
        proof {
            assert(all@.take(n as int).drop_last() =~= all@.take(n - 1));
        }
        n -= 1;
    }
    let name = sub_chars(all, 0, n);
    proof {
        assert(name@ =~= all@.take(n as int));
        assert(without_nuls(name@) == name@);
    }
    name
}

/// The process runs a screensaver: its name ends in `.scr`.
pub open spec fn screensaver(name: Seq<char>) -> bool {
    name.len() >= 4 && text::same_ignoring_case(name.skip(name.len() - 4), ".scr"@)
}

/// The name of a process that runs a screensaver. `exe_file` holds the UTF-16
/// name, padded with NULs.
pub fn screensaver_name(exe_file: &[u16]) -> (r: Option<String>)
    ensures
        text::opt(r) == (if screensaver(without_nuls(text::lossy_utf16(exe_file@))) {
            Some(without_nuls(text::lossy_utf16(exe_file@)))
        } else {
            None
        }),
{
    let name = strip_nuls(&chars_of(&from_utf16_lossy(exe_file)));
    let n: usize = name.len();
    if n < 4 {
        return None;
    }
    let ext = sub_chars(&name, n - 4, n);
    proof {
        assert(ext@ =~= name@.skip(n - 4));
    }
    if eq_ignore_case(&ext, ".scr") {
        Some(string_of(&name))
    } else {
        None
    }
}

// ---------------------------------------------------------------------------
// Laws
// ---------------------------------------------------------------------------

/// A wake dismisses the screensaver, turns the monitors on, presses a key that does
/// nothing, and holds sleep off for half a minute.
pub proof fn law_wake_sequence()
    ensures
        wake_sequence() == seq![
            WakeStep::DismissScreensaver,
            WakeStep::TurnOnMonitor,
            WakeStep::BenignKeypress,
            WakeStep::PreventSleep(30000),
        ],
{
}

/// A wake with retries makes as many attempts as it is told, and at least one. Each of
/// them dismisses the screensaver, turns the monitors on and presses a key, with a short
/// pause in between, and the given pause lies between each two attempts.
pub proof fn law_wake_attempts(attempts: nat, delay_ms: u64, k: int)
    requires
        attempts > 0,
        0 <= k < attempts,
    ensures
        at_least_one(0) == 1,
        at_least_one(attempts) == attempts,
        wake_attempts(attempts, delay_ms).len() == 6 * attempts - 1,
        wake_attempts(attempts, delay_ms)[6 * k] == WakeStep::DismissScreensaver,
        wake_attempts(attempts, delay_ms)[6 * k + 1] == WakeStep::Pause(50),
        wake_attempts(attempts, delay_ms)[6 * k + 2] == WakeStep::TurnOnMonitor,
        wake_attempts(attempts, delay_ms)[6 * k + 3] == WakeStep::Pause(100),
        wake_attempts(attempts, delay_ms)[6 * k + 4] == WakeStep::BenignKeypress,
        k + 1 < attempts ==> wake_attempts(attempts, delay_ms)[6 * k + 5] == WakeStep::Pause(
            delay_ms,
        ),
    decreases attempts,
{
    if attempts > 1 {
        let rest = (attempts - 1) as nat;
        if k < rest {
            law_wake_attempts(rest, delay_ms, k);
        } else {
            law_wake_attempts(rest, delay_ms, 0);
        }
        let before = wake_attempts(rest, delay_ms);
        assert(before.len() == 6 * rest - 1);
        assert(wake_attempt().len() == 5);
    }
}

/// The NULs behind a name do not belong to it, and nothing else is taken off.
pub proof fn law_trailing_nuls_are_taken_off(s: Seq<char>)
    ensures
        without_nuls(s.push('\0')) == without_nuls(s),
        s.len() == 0 || s.last() != '\0' ==> without_nuls(s) == s,
{
    assert(s.push('\0').drop_last() =~= s);
}

/// A screensaver is told by its extension, in any letter case.
pub proof fn law_screensavers(stem: Seq<char>, ext: Seq<char>)
    requires
        ext.len() == 4,
    ensures
        screensaver(stem + ext) <==> text::same_ignoring_case(ext, ".scr"@),
        !screensaver(ext.take(3)),
{
    assert((stem + ext).skip(stem.len() as int) =~= ext);
}

} // verus!
