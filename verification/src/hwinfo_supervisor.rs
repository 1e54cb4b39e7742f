//! Keeps HWiNFO running: an instance that runs already is watched, and where none
//! runs one is launched on a hidden desktop. No second instance is launched, and
//! nothing is terminated that was not launched here.

use crate::power::display;
use crate::text;
use crate::text::{chars_of, from_utf16_lossy, string_of};
use vstd::prelude::*;
use vstd::string::*;

verus! {

/// How often a process is looked at, in seconds.
pub const POLL_SECS: u64 = 5;

/// How long to wait before another launch, in seconds.
pub const RESPAWN_BACKOFF_SECS: u64 = 5;

/// What the supervisor is doing.
#[derive(Debug, Clone, Copy, PartialEq, Eq, Structural)]
pub enum Supervisor {
    /// Finding out whether an instance runs.
    Looking,
    /// Watching an instance that somebody else started.
    Adopted,
    /// Waiting for somebody else to start one: there is no hidden desktop.
    Waiting,
    /// Launching one.
    Launching,
    /// Watching the instance that it launched.
    Owned,
    /// Waiting before it launches again.
    BackingOff,
    /// Done.
    Stopped,
}

/// What happened.
#[derive(Debug, Clone, Copy, PartialEq, Eq, Structural)]
pub enum SupervisorEvent {
    /// The program shuts down.
    Shutdown,
    /// Whether an instance runs.
    Running(bool),
    /// Whether the launch succeeded.
    Launched(bool),
    /// Whether the launched instance has exited.
    Exited(bool),
    /// The time is over.
    Elapsed,
}

/// What is done next.
#[derive(Debug, Clone, Copy, PartialEq, Eq, Structural)]
pub enum SupervisorAction {
    /// Find out whether an instance runs, after so many seconds.
    Look(u64),
    /// Launch an instance on the hidden desktop.
    Launch,
    /// Find out whether the launched instance has exited, after so many seconds.
    LookAtChild(u64),
    /// Wait so many seconds.
    Sleep(u64),
    /// Terminate the launched instance and stop.
    KillAndStop,
    /// Stop.
    Stop,
}

/// Where the supervisor begins.
pub open spec fn first_step(managed: bool) -> (Supervisor, SupervisorAction) {
    if managed {
        (Supervisor::Looking, SupervisorAction::Look(0))
    } else {
        (Supervisor::Stopped, SupervisorAction::Stop)
    }
}

/// The next state and what is done. An instance that was just found or launched is
/// looked at once more right away, and then every few seconds. An event that does not
/// belong to a state leaves it and repeats what is done in it.
pub open spec fn next_step(
    state: Supervisor,
    event: SupervisorEvent,
    has_desktop: bool,
) -> (Supervisor, SupervisorAction) {
    match (state, event) {
        (Supervisor::Looking, SupervisorEvent::Running(true)) => (
            Supervisor::Adopted,
            SupervisorAction::Look(0),
        ),
        (Supervisor::Looking, SupervisorEvent::Running(false)) => if has_desktop {
            (Supervisor::Launching, SupervisorAction::Launch)
        } else {
            (Supervisor::Waiting, SupervisorAction::Sleep(POLL_SECS))
        },
        (Supervisor::Looking, _) => (Supervisor::Looking, SupervisorAction::Look(0)),
        (Supervisor::Adopted, SupervisorEvent::Shutdown) => (
            Supervisor::Stopped,
            SupervisorAction::Stop,
        ),
        (Supervisor::Adopted, SupervisorEvent::Running(false)) => (
            Supervisor::Looking,
            SupervisorAction::Look(0),
        ),
        (Supervisor::Adopted, _) => (Supervisor::Adopted, SupervisorAction::Look(POLL_SECS)),
        (Supervisor::Waiting, SupervisorEvent::Shutdown) => (
            Supervisor::Stopped,
            SupervisorAction::Stop,
        ),
        (Supervisor::Waiting, SupervisorEvent::Elapsed) => (
            Supervisor::Looking,
            SupervisorAction::Look(0),
        ),
        (Supervisor::Waiting, _) => (Supervisor::Waiting, SupervisorAction::Sleep(POLL_SECS)),
        (Supervisor::Launching, SupervisorEvent::Launched(true)) => (
            Supervisor::Owned,
            SupervisorAction::LookAtChild(0),
        ),
        (Supervisor::Launching, SupervisorEvent::Launched(false)) => (
            Supervisor::BackingOff,
            SupervisorAction::Sleep(RESPAWN_BACKOFF_SECS),
        ),
        (Supervisor::Launching, _) => (Supervisor::Looking, SupervisorAction::Look(0)),
        (Supervisor::Owned, SupervisorEvent::Shutdown) => (
            Supervisor::Stopped,
            SupervisorAction::KillAndStop,
        ),
        (Supervisor::Owned, SupervisorEvent::Exited(true)) => (
            Supervisor::BackingOff,
            SupervisorAction::Sleep(RESPAWN_BACKOFF_SECS),
        ),
        (Supervisor::Owned, _) => (Supervisor::Owned, SupervisorAction::LookAtChild(POLL_SECS)),
        (Supervisor::BackingOff, SupervisorEvent::Shutdown) => (
            Supervisor::Stopped,
            SupervisorAction::Stop,
        ),
        (Supervisor::BackingOff, SupervisorEvent::Elapsed) => (
            Supervisor::Looking,
            SupervisorAction::Look(0),
        ),
        (Supervisor::BackingOff, _) => (
            Supervisor::BackingOff,
            SupervisorAction::Sleep(RESPAWN_BACKOFF_SECS),
        ),
        (Supervisor::Stopped, _) => (Supervisor::Stopped, SupervisorAction::Stop),
    }
}

impl Supervisor {
    /// Begins, if HWiNFO is to be managed at all.
    pub fn start(managed: bool) -> (r: (Supervisor, SupervisorAction))
        ensures
            r == first_step(managed),
    {
        if managed {
            (Supervisor::Looking, SupervisorAction::Look(0))
        } else {
            (Supervisor::Stopped, SupervisorAction::Stop)
        }
    }

    /// Takes an event. `has_desktop` says whether the hidden desktop exists.
    pub fn on_event(&mut self, event: SupervisorEvent, has_desktop: bool) -> (r: SupervisorAction)
        ensures
            (*final(self), r) == next_step(*old(self), event, has_desktop),
    {
        let (state, action) = match (*self, event) {
            (Supervisor::Looking, SupervisorEvent::Running(true)) => (
                Supervisor::Adopted,
                SupervisorAction::Look(0),
            ),
            (Supervisor::Looking, SupervisorEvent::Running(false)) => {
                if has_desktop {
                    (Supervisor::Launching, SupervisorAction::Launch)
                } else {
                    (Supervisor::Waiting, SupervisorAction::Sleep(POLL_SECS))
                }
            },
            (Supervisor::Looking, _) => (Supervisor::Looking, SupervisorAction::Look(0)),
            (Supervisor::Adopted, SupervisorEvent::Shutdown) => (
                Supervisor::Stopped,
                SupervisorAction::Stop,
            ),
            (Supervisor::Adopted, SupervisorEvent::Running(false)) => (
                Supervisor::Looking,
                SupervisorAction::Look(0),
            ),
            (Supervisor::Adopted, _) => (Supervisor::Adopted, SupervisorAction::Look(POLL_SECS)),
            (Supervisor::Waiting, SupervisorEvent::Shutdown) => (
                Supervisor::Stopped,
                SupervisorAction::Stop,
            ),
            (Supervisor::Waiting, SupervisorEvent::Elapsed) => (
                Supervisor::Looking,
                SupervisorAction::Look(0),
            ),
            (Supervisor::Waiting, _) => (Supervisor::Waiting, SupervisorAction::Sleep(POLL_SECS)),
            (Supervisor::Launching, SupervisorEvent::Launched(true)) => (
                Supervisor::Owned,
                SupervisorAction::LookAtChild(0),
            ),
            (Supervisor::Launching, SupervisorEvent::Launched(false)) => (
                Supervisor::BackingOff,
                SupervisorAction::Sleep(RESPAWN_BACKOFF_SECS),
            ),
            (Supervisor::Launching, _) => (Supervisor::Looking, SupervisorAction::Look(0)),
            (Supervisor::Owned, SupervisorEvent::Shutdown) => (
                Supervisor::Stopped,
                SupervisorAction::KillAndStop,
            ),
            (Supervisor::Owned, SupervisorEvent::Exited(true)) => (
                Supervisor::BackingOff,
                SupervisorAction::Sleep(RESPAWN_BACKOFF_SECS),
            ),
            (Supervisor::Owned, _) => (
                Supervisor::Owned,
                SupervisorAction::LookAtChild(POLL_SECS),
            ),
            (Supervisor::BackingOff, SupervisorEvent::Shutdown) => (
                Supervisor::Stopped,
                SupervisorAction::Stop,
            ),
            (Supervisor::BackingOff, SupervisorEvent::Elapsed) => (
                Supervisor::Looking,
                SupervisorAction::Look(0),
            ),
            (Supervisor::BackingOff, _) => (
                Supervisor::BackingOff,
                SupervisorAction::Sleep(RESPAWN_BACKOFF_SECS),
            ),
            (Supervisor::Stopped, _) => (Supervisor::Stopped, SupervisorAction::Stop),
        };
        *self = state;
        action
    }
}

/// An instance is launched only right after none was found, and only onto the
/// hidden desktop.
pub proof fn law_no_second_instance(
    state: Supervisor,
    event: SupervisorEvent,
    has_desktop: bool,
)
    ensures
        next_step(state, event, has_desktop).1 is Launch <==> state is Looking && event
            == SupervisorEvent::Running(false) && has_desktop,
{
}

/// The state after many events, each with whether the desktop exists.
pub open spec fn after_events(managed: bool, events: Seq<(SupervisorEvent, bool)>) -> Supervisor
    decreases events.len(),
{
    if events.len() == 0 {
        first_step(managed).0
    } else {
        let (event, has_desktop) = events.last();
        next_step(after_events(managed, events.drop_last()), event, has_desktop).0
    }
}

/// The event ends the ownership of an instance: it has exited, or the supervisor is
/// to stop.
pub open spec fn ends_ownership(event: SupervisorEvent) -> bool {
    event == SupervisorEvent::Exited(true) || event is Shutdown
}

/// The event with the index `k` says that the launch that was asked for succeeded,
/// and since then the instance was not seen to exit and no stop was asked for.
pub open spec fn launched_at(
    managed: bool,
    events: Seq<(SupervisorEvent, bool)>,
    k: int,
) -> bool {
    &&& 0 <= k < events.len()
    &&& after_events(managed, events.take(k)) is Launching
    &&& events[k].0 == SupervisorEvent::Launched(true)
    &&& forall|j: int| k < j < events.len() ==> !ends_ownership((#[trigger] events[j]).0)
}

proof fn lemma_becomes_owned(state: Supervisor, event: SupervisorEvent, has_desktop: bool)
    ensures
        next_step(state, event, has_desktop).0 is Owned <==> (state is Launching && event
            == SupervisorEvent::Launched(true)) || (state is Owned && !ends_ownership(event)),
{
}

proof fn lemma_still_launched(managed: bool, events: Seq<(SupervisorEvent, bool)>, k: int)
    requires
        events.len() > 0,
        0 <= k < events.len() - 1,
    ensures
        launched_at(managed, events, k) <==> launched_at(managed, events.drop_last(), k)
            && !ends_ownership(events.last().0),
{
    let before = events.drop_last();
    assert(before[k] == events[k]);
    assert(before.take(k) =~= events.take(k));
    if launched_at(managed, events, k) {
        assert forall|j: int| k < j < before.len() implies !ends_ownership(
            (#[trigger] before[j]).0,
        ) by {
            assert(before[j] == events[j]);
        }
        assert(!ends_ownership(events[events.len() - 1].0));
    }
    if launched_at(managed, before, k) && !ends_ownership(events.last().0) {
        assert forall|j: int| k < j < events.len() implies !ends_ownership(
            (#[trigger] events[j]).0,
        ) by {
            if j < before.len() {
                assert(before[j] == events[j]);
            }
        }
    }
}

/// An instance counts as its own exactly from the moment that its launch succeeded
/// until it was seen to exit or the supervisor was to stop.
pub proof fn law_owned_means_launched(managed: bool, events: Seq<(SupervisorEvent, bool)>)
    ensures
        after_events(managed, events) is Owned <==> exists|k: int| launched_at(managed, events, k),
    decreases events.len(),
{
    if events.len() > 0 {
        let before = events.drop_last();
        let last = events.last();
        let n = events.len() - 1;
        let state = after_events(managed, before);
        law_owned_means_launched(managed, before);
        lemma_becomes_owned(state, last.0, last.1);
        assert(events.take(n) =~= before);
        if state is Launching && last.0 == SupervisorEvent::Launched(true) {
            assert(launched_at(managed, events, n));
        } else if state is Owned && !ends_ownership(last.0) {
            let k = choose|k: int| launched_at(managed, before, k);
            lemma_still_launched(managed, events, k);
            assert(launched_at(managed, events, k));
        } else {
            assert forall|k: int| !launched_at(managed, events, k) by {
                if 0 <= k < n {
                    lemma_still_launched(managed, events, k);
                }
            }
        }
    }
}

/// Only an instance of its own is ever terminated.
pub proof fn law_kills_only_its_own(
    state: Supervisor,
    event: SupervisorEvent,
    has_desktop: bool,
)
    ensures
        next_step(state, event, has_desktop).1 is KillAndStop <==> state is Owned && event
            is Shutdown,
{
}

/// Where the executable is looked for.
#[derive(Debug, Clone)]
pub enum ExePath {
    /// At this path.
    Given(String),
    /// Under its usual name in this directory.
    Beside(String),
    /// Under its usual name.
    ByName,
}

/// Where the executable is looked for: at the configured path unless that is
/// empty, else beside the program, else by its name.
pub fn resolve_exe_path(configured: Option<&str>, program_dir: Option<&str>) -> (r: ExePath)
    ensures
        match r {
            ExePath::Given(p) => configured matches Some(c) && c@.len() > 0 && p@ == c@,
            ExePath::Beside(d) => (configured matches Some(c) ==> c@.len() == 0)
                && (program_dir matches Some(b) && d@ == b@),
            ExePath::ByName => (configured matches Some(c) ==> c@.len() == 0) && program_dir is None,
        },
{
    match configured {
        Some(p) => {
            if !p.is_empty() {
                return ExePath::Given(p.to_string());
            }
        },
        None => {},
    }
    match program_dir {
        Some(d) => ExePath::Beside(d.to_string()),
        None => ExePath::ByName,
    }
}

/// Whether a process runs the executable. `exe_file` is the UTF-16 name of the
/// process, padded with NULs; `exe_name_lower` is the name of the executable in
/// lower case.
pub fn is_instance(exe_file: &[u16], exe_name_lower: &str) -> (r: bool)
    ensures
        r == (text::lowercase(display::without_nuls(text::lossy_utf16(exe_file@)))
            == exe_name_lower@),
{
    let all = chars_of(&from_utf16_lossy(exe_file));
    let name = display::strip_nuls(&all);
    let lower = string_of(&name).as_str().to_lowercase();
    lower.as_str().eq(exe_name_lower)
}

/// What the supervisor does: it looks for an instance at once; one that it finds it
/// watches, looking every five seconds; where there is none it launches one, or waits
/// five seconds where there is no desktop for it. A launched instance is watched every
/// five seconds and, once it exited or could not be launched, replaced five seconds
/// later. Asked to stop, it stops, and terminates an instance that it launched.
pub proof fn law_what_the_supervisor_does(d: bool)
    ensures
        first_step(true) == (Supervisor::Looking, SupervisorAction::Look(0)),
        first_step(false) == (Supervisor::Stopped, SupervisorAction::Stop),
        next_step(Supervisor::Looking, SupervisorEvent::Running(true), d) == (
            Supervisor::Adopted,
            SupervisorAction::Look(0),
        ),
        next_step(Supervisor::Looking, SupervisorEvent::Running(false), true) == (
            Supervisor::Launching,
            SupervisorAction::Launch,
        ),
        next_step(Supervisor::Looking, SupervisorEvent::Running(false), false) == (
            Supervisor::Waiting,
            SupervisorAction::Sleep(5),
        ),
        next_step(Supervisor::Adopted, SupervisorEvent::Running(true), d) == (
            Supervisor::Adopted,
            SupervisorAction::Look(5),
        ),
        next_step(Supervisor::Adopted, SupervisorEvent::Running(false), d) == (
            Supervisor::Looking,
            SupervisorAction::Look(0),
        ),
        next_step(Supervisor::Adopted, SupervisorEvent::Shutdown, d) == (
            Supervisor::Stopped,
            SupervisorAction::Stop,
        ),
        next_step(Supervisor::Waiting, SupervisorEvent::Elapsed, d) == (
            Supervisor::Looking,
            SupervisorAction::Look(0),
        ),
        next_step(Supervisor::Waiting, SupervisorEvent::Shutdown, d) == (
            Supervisor::Stopped,
            SupervisorAction::Stop,
        ),
        next_step(Supervisor::Launching, SupervisorEvent::Launched(true), d) == (
            Supervisor::Owned,
            SupervisorAction::LookAtChild(0),
        ),
        next_step(Supervisor::Launching, SupervisorEvent::Launched(false), d) == (
            Supervisor::BackingOff,
            SupervisorAction::Sleep(5),
        ),
        next_step(Supervisor::Owned, SupervisorEvent::Exited(false), d) == (
            Supervisor::Owned,
            SupervisorAction::LookAtChild(5),
        ),
        next_step(Supervisor::Owned, SupervisorEvent::Exited(true), d) == (
            Supervisor::BackingOff,
            SupervisorAction::Sleep(5),
        ),
        next_step(Supervisor::Owned, SupervisorEvent::Shutdown, d) == (
            Supervisor::Stopped,
            SupervisorAction::KillAndStop,
        ),
        next_step(Supervisor::BackingOff, SupervisorEvent::Elapsed, d) == (
            Supervisor::Looking,
            SupervisorAction::Look(0),
        ),
        next_step(Supervisor::BackingOff, SupervisorEvent::Shutdown, d) == (
            Supervisor::Stopped,
            SupervisorAction::Stop,
        ),
{
}

/// An event that a state does not wait for leaves it and repeats what is done in it, and a
/// launch that was answered by anything else is begun anew.
pub proof fn law_other_events_repeat(event: SupervisorEvent, d: bool)
    ensures
        event !is Running ==> next_step(Supervisor::Looking, event, d) == (
            Supervisor::Looking,
            SupervisorAction::Look(0),
        ),
        event !is Running && event !is Shutdown ==> next_step(Supervisor::Adopted, event, d) == (
            Supervisor::Adopted,
            SupervisorAction::Look(5),
        ),
        event !is Elapsed && event !is Shutdown ==> next_step(Supervisor::Waiting, event, d) == (
            Supervisor::Waiting,
            SupervisorAction::Sleep(5),
        ),
        event !is Launched ==> next_step(Supervisor::Launching, event, d) == (
            Supervisor::Looking,
            SupervisorAction::Look(0),
        ),
        event !is Exited && event !is Shutdown ==> next_step(Supervisor::Owned, event, d) == (
            Supervisor::Owned,
            SupervisorAction::LookAtChild(5),
        ),
        event !is Elapsed && event !is Shutdown ==> next_step(Supervisor::BackingOff, event, d)
            == (Supervisor::BackingOff, SupervisorAction::Sleep(5)),
        next_step(Supervisor::Stopped, event, d) == (Supervisor::Stopped, SupervisorAction::Stop),
{
}

} // verus!
