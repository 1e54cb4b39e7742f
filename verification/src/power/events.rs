//! Sleep, wake and display events on Windows.
//!
//! However many messages arrive, there is one sleep event for each time that the
//! machine goes to sleep and one wake event for each time that it wakes up.

use vstd::prelude::*;
use vstd::string::*;

verus! {

/// A power event.
#[derive(Debug, Clone, Copy, PartialEq, Eq, Structural)]
pub enum PowerEvent {
    Sleep,
    Wake,
    DisplayOff,
    DisplayOn,
}

/// The message kinds of a power broadcast.
pub const PBT_APMSUSPEND: usize = 4;

pub const PBT_APMRESUMEAUTO: usize = 0x12;

pub const PBT_APMRESUMESUSPEND: usize = 7;

pub const PBT_POWERSETTINGCHANGE: usize = 0x8013;

/// The setting that holds the state of the display: off, on or dimmed.
pub const GUID_CONSOLE_DISPLAY_STATE: u128 = 0x6FE69556704A47A08F24C28D936FDA47;

/// The setting that a setting-change message carries.
#[derive(Debug, Clone, Copy, PartialEq, Eq, Structural)]
pub struct PowerSetting {
    pub guid: u128,
    pub data_length: u32,
    /// The first byte of the data.
    pub data: u8,
}

/// Whether the machine was last seen going to sleep.
#[derive(Debug, Clone, Copy, PartialEq, Eq, Structural)]
pub struct PowerState {
    pub sleeping: bool,
}

/// The display event behind a setting. A dimmed display still counts as on, so it
/// makes no event.
pub open spec fn display_event(setting: Option<PowerSetting>) -> Option<PowerEvent> {
    match setting {
        Some(s) => if s.guid == GUID_CONSOLE_DISPLAY_STATE && s.data_length >= 1 {
            if s.data == 0 {
                Some(PowerEvent::DisplayOff)
            } else if s.data == 1 {
                Some(PowerEvent::DisplayOn)
            } else {
                None
            }
        } else {
            None
        },
        None => None,
    }
}

/// The state after a message and the event that the message makes.
pub open spec fn after_message(
    state: PowerState,
    kind: usize,
    setting: Option<PowerSetting>,
) -> (PowerState, Option<PowerEvent>) {
    if kind == PBT_APMSUSPEND {
        (PowerState { sleeping: true }, if state.sleeping {
            None
        } else {
            Some(PowerEvent::Sleep)
        })
    } else if kind == PBT_APMRESUMEAUTO || kind == PBT_APMRESUMESUSPEND {
        (PowerState { sleeping: false }, if state.sleeping {
            Some(PowerEvent::Wake)
        } else {
            None
        })
    } else if kind == PBT_POWERSETTINGCHANGE {
        (state, display_event(setting))
    } else {
        (state, None)
    }
}

impl PowerState {
    /// A machine that is awake.
    pub fn new() -> (r: Self)
        ensures
            r == (PowerState { sleeping: false }),
    {
        PowerState { sleeping: false }
    }

    /// Goes to sleep. Returns whether this call made the transition.
    pub fn try_transition_to_sleep(&mut self) -> (r: bool)
        ensures
            r == !old(self).sleeping,
            final(self).sleeping,
    {
        if self.sleeping {
            false
        } else {
            self.sleeping = true;
            true
        }
    }

    /// Wakes up. Returns whether this call made the transition.
    pub fn try_transition_to_awake(&mut self) -> (r: bool)
        ensures
            r == old(self).sleeping,
            !final(self).sleeping,
    {
        if self.sleeping {
            self.sleeping = false;
            true
        } else {
            false
        }
    }

    /// Takes a power broadcast. Before a sleep event is handed on, the sleep state
    /// is to be published over its own connection.
    pub fn on_message(&mut self, kind: usize, setting: Option<PowerSetting>) -> (r: Option<
        PowerEvent,
    >)
        ensures
            (*final(self), r) == after_message(*old(self), kind, setting),
    {
        if kind == PBT_APMSUSPEND {
            if self.try_transition_to_sleep() {
                return Some(PowerEvent::Sleep);
            }
            return None;
        }
        if kind == PBT_APMRESUMEAUTO || kind == PBT_APMRESUMESUSPEND {
            if self.try_transition_to_awake() {
                return Some(PowerEvent::Wake);
            }
            return None;
        }
        if kind == PBT_POWERSETTINGCHANGE {
            return match setting {
                Some(s) => {
                    if s.guid == GUID_CONSOLE_DISPLAY_STATE && s.data_length >= 1 {
                        if s.data == 0 {
                            Some(PowerEvent::DisplayOff)
                        } else if s.data == 1 {
                            Some(PowerEvent::DisplayOn)
                        } else {
                            None
                        }
                    } else {
                        None
                    }
                },
                None => None,
            };
        }
        None
    }
}

// ---------------------------------------------------------------------------
// Many messages
// ---------------------------------------------------------------------------

/// The state after many messages and the sleep and wake events among those that
/// they make.
pub open spec fn after_messages(
    state: PowerState,
    messages: Seq<(usize, Option<PowerSetting>)>,
) -> (PowerState, Seq<PowerEvent>)
    decreases messages.len(),
{
    if messages.len() == 0 {
        (state, seq![])
    } else {
        let (before, events) = after_messages(state, messages.drop_last());
        let (kind, setting) = messages.last();
        let (after, event) = after_message(before, kind, setting);
        match event {
            Some(e) => if e == PowerEvent::Sleep || e == PowerEvent::Wake {
                (after, events.push(e))
            } else {
                (after, events)
            },
            None => (after, events),
        }
    }
}

/// From a machine that is awake, sleep and wake events come in turn, a sleep event
/// first, however many messages arrive and in whatever order; and the machine is
/// asleep exactly when the last of them was a sleep event.
pub proof fn law_sleep_and_wake_alternate(messages: Seq<(usize, Option<PowerSetting>)>)
    ensures
        ({
            let (state, events) = after_messages(PowerState { sleeping: false }, messages);
            &&& forall|i: int|
                0 <= i < events.len() ==> #[trigger] events[i] == (if i % 2 == 0 {
                    PowerEvent::Sleep
                } else {
                    PowerEvent::Wake
                })
            &&& state.sleeping == (events.len() % 2 == 1)
        }),
    decreases messages.len(),
{
    if messages.len() > 0 {
        law_sleep_and_wake_alternate(messages.drop_last());
    }
}

/// A message that repeats the one before it makes no second sleep or wake event.
pub proof fn law_repeated_messages_are_ignored(state: PowerState, kind: usize)
    requires
        kind == PBT_APMSUSPEND || kind == PBT_APMRESUMEAUTO || kind == PBT_APMRESUMESUSPEND,
    ensures
        after_message(after_message(state, kind, None).0, kind, None) == (
            after_message(state, kind, None).0,
            None::<PowerEvent>,
        ),
{
}

// ---------------------------------------------------------------------------
// Publishing
// ---------------------------------------------------------------------------

/// The sensor and the value that an event publishes, retained.
pub open spec fn publication(event: PowerEvent) -> (Seq<char>, Seq<char>) {
    match event {
        PowerEvent::Sleep => ("sleep_state"@, "sleeping"@),
        PowerEvent::Wake => ("sleep_state"@, "awake"@),
        PowerEvent::DisplayOff => ("display"@, "off"@),
        PowerEvent::DisplayOn => ("display"@, "on"@),
    }
}

/// The sensor and the value that an event publishes.
pub fn published_state(event: PowerEvent) -> (r: (&'static str, &'static str))
    ensures
        (r.0@, r.1@) == publication(event),
{
    match event {
        PowerEvent::Sleep => ("sleep_state", "sleeping"),
        PowerEvent::Wake => ("sleep_state", "awake"),
        PowerEvent::DisplayOff => ("display", "off"),
        PowerEvent::DisplayOn => ("display", "on"),
    }
}

/// After how many more seconds, each counted from the one before, an event is
/// published again. The network may not be back yet right after a wake.
pub fn republish_delays(event: PowerEvent) -> (r: Vec<u64>)
    ensures
        r@ == (if event == PowerEvent::Wake {
            seq![2u64, 5u64, 10u64]
        } else {
            seq![]
        }),
{
    match event {
        PowerEvent::Wake => vec![2, 5, 10],
        _ => Vec::new(),
    }
}

/// What each message of Windows means. A suspend puts the machine to sleep, both kinds of
/// resume wake it, and each makes an event where that is a change. The console display
/// makes an event when it goes off and when it comes on, but not when it is dimmed. No
/// other message means anything.
pub proof fn law_what_each_message_means(state: PowerState, kind: usize, data: u32, length: u32)
    ensures
        after_message(state, 4, None).0.sleeping,
        after_message(state, 4, None).1 == (if state.sleeping {
            None
        } else {
            Some(PowerEvent::Sleep)
        }),
        !after_message(state, 7, None).0.sleeping,
        after_message(state, 7, None) == after_message(state, 18, None),
        after_message(state, 7, None).1 == (if state.sleeping {
            Some(PowerEvent::Wake)
        } else {
            None
        }),
        after_message(state, 0x8013, None) == (state, None::<PowerEvent>),
        kind != 4 && kind != 7 && kind != 18 && kind != 0x8013 ==> after_message(state, kind, None)
            == (state, None::<PowerEvent>),
{
}

/// What an event publishes.
pub proof fn law_what_each_event_publishes()
    ensures
        publication(PowerEvent::Sleep) == ("sleep_state"@, "sleeping"@),
        publication(PowerEvent::Wake) == ("sleep_state"@, "awake"@),
        publication(PowerEvent::DisplayOff) == ("display"@, "off"@),
        publication(PowerEvent::DisplayOn) == ("display"@, "on"@),
{
}

/// Only the setting of the console display makes an event, and only where it holds a
/// value: zero says that the display is off, one that it is on.
pub proof fn law_display_settings(state: PowerState, s: PowerSetting)
    ensures
        ({
            let made = after_message(state, 0x8013, Some(s));
            let told = s.guid == 0x6FE69556704A47A08F24C28D936FDA47u128 && s.data_length >= 1;
            &&& made.0 == state
            &&& told && s.data == 0 ==> made.1 == Some(PowerEvent::DisplayOff)
            &&& told && s.data == 1 ==> made.1 == Some(PowerEvent::DisplayOn)
            &&& !told || s.data > 1 ==> made.1 is None
        }),
{
}

} // verus!
