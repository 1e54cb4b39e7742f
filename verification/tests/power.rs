//! Sleep, wake and display power.

use pc_bridge::elevation::encode_utf16;
use pc_bridge::power::display;
use pc_bridge::power::display::{screensaver_name, WakeStep};
use pc_bridge::power::display_linux;
use pc_bridge::power::display_linux::{monitor_off, observed_display_state, DisplayStep};
use pc_bridge::power::events::{
    published_state, republish_delays, PowerEvent, PowerSetting, PowerState,
    GUID_CONSOLE_DISPLAY_STATE, PBT_APMRESUMEAUTO, PBT_APMRESUMESUSPEND, PBT_APMSUSPEND,
    PBT_POWERSETTINGCHANGE,
};
use pc_bridge::power::events_linux::{dpms_state, sleep_signal, DisplayPoll, SleepPoll};

#[test]
fn test_state_machine_transitions() {
    let mut state = PowerState::new();

    assert!(state.try_transition_to_sleep());
    assert!(!state.try_transition_to_sleep());
    assert!(state.try_transition_to_awake());
    assert!(!state.try_transition_to_awake());
}

#[test]
fn sleep_and_wake_alternate() {
    let mut state = PowerState::new();
    let kinds = [
        PBT_APMRESUMEAUTO,
        PBT_APMSUSPEND,
        PBT_APMSUSPEND,
        PBT_APMRESUMEAUTO,
        PBT_APMRESUMESUSPEND,
        0,
        PBT_APMSUSPEND,
    ];
    let events: Vec<PowerEvent> = kinds
        .iter()
        .filter_map(|k| state.on_message(*k, None))
        .collect();
    assert_eq!(
        events,
        [PowerEvent::Sleep, PowerEvent::Wake, PowerEvent::Sleep]
    );
}

#[test]
fn display_messages_make_display_events() {
    let event = |guid: u128, data_length: u32, data: u8| {
        PowerState::new().on_message(
            PBT_POWERSETTINGCHANGE,
            Some(PowerSetting {
                guid,
                data_length,
                data,
            }),
        )
    };
    let display = GUID_CONSOLE_DISPLAY_STATE;
    assert_eq!(event(display, 4, 0), Some(PowerEvent::DisplayOff));
    assert_eq!(event(display, 1, 1), Some(PowerEvent::DisplayOn));
    assert_eq!(event(display, 1, 2), None);
    assert_eq!(event(display, 0, 1), None);
    assert_eq!(event(display + 1, 1, 1), None);
    assert_eq!(
        PowerState::new().on_message(PBT_POWERSETTINGCHANGE, None),
        None
    );
}

#[test]
fn events_are_published() {
    assert_eq!(published_state(PowerEvent::Sleep), ("sleep_state", "sleeping"));
    assert_eq!(published_state(PowerEvent::Wake), ("sleep_state", "awake"));
    assert_eq!(published_state(PowerEvent::DisplayOff), ("display", "off"));
    assert_eq!(published_state(PowerEvent::DisplayOn), ("display", "on"));
    assert_eq!(republish_delays(PowerEvent::Wake), [2, 5, 10]);
    assert!(republish_delays(PowerEvent::Sleep).is_empty());
}

#[test]
fn bus_signals_make_events() {
    let line = "/org/freedesktop/login1: org.freedesktop.login1.Manager.PrepareForSleep";
    assert_eq!(sleep_signal(&format!("{line} (true,)")), Some(PowerEvent::Sleep));
    assert_eq!(sleep_signal(&format!("{line} (false,)")), Some(PowerEvent::Wake));
    assert_eq!(sleep_signal("SessionNew (true,)"), None);
}

#[test]
fn polling_makes_events_of_changes() {
    let mut poll = SleepPoll::new();
    assert_eq!(poll.observe(&Some("inactive\n".to_string())), None);
    assert_eq!(
        poll.observe(&Some("active\n".to_string())),
        Some(PowerEvent::Sleep)
    );
    assert_eq!(poll.observe(&Some("active".to_string())), None);
    assert_eq!(poll.observe(&None), Some(PowerEvent::Wake));
}

#[test]
fn the_display_is_on_only_when_it_says_so() {
    let q = |state: &str| dpms_state(&format!("DPMS is Enabled\n  Monitor is {state} \r\nFont\n"));
    assert_eq!(q("On"), Some(true));
    assert_eq!(q("Off"), Some(false));
    assert_eq!(q("in Standby"), Some(false));
    assert_eq!(q("in Suspend"), Some(false));
    assert_eq!(dpms_state("DPMS is Disabled\n"), None);
    assert_eq!(dpms_state(""), None);
}

#[test]
fn display_events_are_changes() {
    let mut poll = DisplayPoll::new();
    let seen = [None, Some(true), Some(true), None, Some(true), Some(false), Some(false)];
    let events: Vec<PowerEvent> = seen.iter().filter_map(|o| poll.observe(*o)).collect();
    assert_eq!(events, [PowerEvent::DisplayOn, PowerEvent::DisplayOff]);
}

#[test]
fn the_display_is_woken_on_windows() {
    assert_eq!(
        display::wake_display(),
        [
            WakeStep::DismissScreensaver,
            WakeStep::TurnOnMonitor,
            WakeStep::BenignKeypress,
            WakeStep::PreventSleep(30_000),
        ]
    );
    let once = display::wake_display_with_retry(0, 500);
    assert_eq!(once.len(), 6);
    assert_eq!(once, display::wake_display_with_retry(1, 500));
    let thrice = display::wake_display_with_retry(3, 500);
    assert_eq!(thrice.len(), 3 * 5 + 2 + 1);
    assert_eq!(thrice[5], WakeStep::Pause(500));
    assert_eq!(thrice[17], WakeStep::PreventSleep(30_000));
}

#[test]
fn screensavers_are_told_by_their_extension() {
    let name = |s: &str| {
        let mut units: Vec<u16> = s.encode_utf16().collect();
        units.resize(40, 0);
        screensaver_name(&units)
    };
    assert_eq!(name("Bubbles.SCR").as_deref(), Some("Bubbles.SCR"));
    assert_eq!(name(".scr").as_deref(), Some(".scr"));
    assert_eq!(name("scr"), None);
    assert_eq!(name("notepad.exe"), None);
    assert_eq!(name(""), None);
}

#[test]
fn names_are_decoded_from_utf16() {
    // A pair, then a low surrogate alone, then a high one in front of a letter.
    let mut units: Vec<u16> = vec![0xD83D, 0xDE00, 0xDE00, 0xD83D, 0x20AC];
    units.extend(encode_utf16(".scr"));
    units.push(0);
    assert_eq!(
        screensaver_name(&units).as_deref(),
        Some("\u{1F600}\u{FFFD}\u{FFFD}\u{20AC}.scr")
    );
    let name = "\u{10FFFF}\u{D7FF}\u{E000}\u{10000}\u{FFFF}z.scr";
    assert_eq!(screensaver_name(&encode_utf16(name)).as_deref(), Some(name));
}

#[test]
fn the_display_state_is_observed_where_it_can_be() {
    assert_eq!(observed_display_state(false, Some(true), Some(false)), Some("on"));
    assert_eq!(observed_display_state(false, Some(false), None), Some("off"));
    assert_eq!(observed_display_state(true, Some(true), Some(false)), Some("off"));
    assert_eq!(observed_display_state(false, None, Some(true)), Some("on"));
    assert_eq!(observed_display_state(true, Some(true), None), None);
}

#[test]
fn sources_are_asked_in_order() {
    let wake = display_linux::wake_display;
    assert!(matches!(wake(false, None, None), DisplayStep::AskX11));
    assert!(matches!(wake(false, Some(true), None), DisplayStep::Done));
    assert!(matches!(wake(false, Some(false), None), DisplayStep::AskWlr));
    assert!(matches!(wake(true, None, None), DisplayStep::AskWlr));
    assert!(matches!(wake(true, None, Some(true)), DisplayStep::Done));
    let tools = |s: DisplayStep| match s {
        DisplayStep::RunTools(t) => t.into_iter().map(|i| i.program).collect::<Vec<_>>(),
        _ => Vec::new(),
    };
    assert_eq!(
        tools(wake(false, Some(false), Some(false))),
        ["xdotool", "xset", "dbus-send"]
    );
    assert_eq!(tools(wake(true, None, Some(false))), ["dbus-send"]);

    let no = Some(false);
    assert!(matches!(monitor_off(false, no, no, None, false), DisplayStep::AskXset));
    assert!(matches!(monitor_off(false, no, no, Some(true), false), DisplayStep::Done));
    assert!(matches!(monitor_off(false, no, no, no, false), DisplayStep::Warn));
    assert!(matches!(monitor_off(true, None, no, None, true), DisplayStep::Done));
    assert!(matches!(monitor_off(true, None, no, None, false), DisplayStep::Warn));
}
